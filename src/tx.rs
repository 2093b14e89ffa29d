//! The serialized transaction format: version, an optional witness marker,
//! inputs, outputs, witness stacks and lock time, all of it consumed exactly.

use crate::bytes::{read_compact, read_le, read_u32, spec_compact, spec_le, spec_take, take_bytes};
use vstd::prelude::*;

verus! {

pub struct InputModel {
    pub prev_txid: Seq<u8>,
    pub prev_index: nat,
    pub script_sig: Seq<u8>,
    pub sequence: nat,
}

pub struct OutputModel {
    pub amount: nat,
    pub script: Seq<u8>,
}

pub struct TxModel {
    pub version: nat,
    pub segwit: bool,
    pub inputs: Seq<InputModel>,
    pub outputs: Seq<OutputModel>,
    /// One stack per input in the witness form; empty in the legacy form.
    pub witnesses: Seq<Seq<Seq<u8>>>,
    pub lock_time: nat,
    /// The serialization without marker, flag and witnesses.
    pub stripped: Seq<u8>,
}

/// An input: the output it spends, its unlocking script and sequence number.
pub struct TxInput {
    pub prev_txid: Vec<u8>,
    pub prev_index: u32,
    pub script_sig: Vec<u8>,
    pub sequence: u32,
}

/// An output as serialized: an amount and a locking script.
pub struct TxOut {
    pub amount: u64,
    pub script: Vec<u8>,
}

/// A transaction as serialized.
pub struct Transaction {
    pub version: u32,
    pub segwit: bool,
    pub inputs: Vec<TxInput>,
    pub outputs: Vec<TxOut>,
    pub witnesses: Vec<Vec<Vec<u8>>>,
    pub lock_time: u32,
    /// The serialization without marker, flag and witnesses, which the
    /// transaction id is computed from.
    pub stripped: Vec<u8>,
}

impl View for TxInput {
    type V = InputModel;

    open spec fn view(&self) -> InputModel {
        InputModel {
            prev_txid: self.prev_txid@,
            prev_index: self.prev_index as nat,
            script_sig: self.script_sig@,
            sequence: self.sequence as nat,
        }
    }
}

impl View for TxOut {
    type V = OutputModel;

    open spec fn view(&self) -> OutputModel {
        OutputModel { amount: self.amount as nat, script: self.script@ }
    }
}

impl View for Transaction {
    type V = TxModel;

    open spec fn view(&self) -> TxModel {
        TxModel {
            version: self.version as nat,
            segwit: self.segwit,
            inputs: self.inputs@.map_values(|i: TxInput| i@),
            outputs: self.outputs@.map_values(|o: TxOut| o@),
            witnesses: self.witnesses@.map_values(|w: Vec<Vec<u8>>| w@.map_values(|x: Vec<u8>| x@)),
            lock_time: self.lock_time as nat,
            stripped: self.stripped@,
        }
    }
}

/// `n` items in a row from `p`, each read by `item`.
pub open spec fn spec_many<T>(
    s: Seq<u8>,
    p: int,
    n: nat,
    item: spec_fn(Seq<u8>, int) -> Option<(T, int)>,
) -> Option<(Seq<T>, int)>
    decreases n,
{
    if n == 0 {
        Some((Seq::empty(), p))
    } else {
        match spec_many(s, p, (n - 1) as nat, item) {
            Some((xs, q)) => match item(s, q) {
                Some((x, r)) => Some((xs.push(x), r)),
                None => None,
            },
            None => None,
        }
    }
}

/// A compact-size count, then that many items. A count larger than the bytes
/// left cannot be met, since every item takes at least one byte.
pub open spec fn spec_list<T>(
    s: Seq<u8>,
    p: int,
    item: spec_fn(Seq<u8>, int) -> Option<(T, int)>,
) -> Option<(Seq<T>, int)> {
    match spec_compact(s, p) {
        Some((n, q)) => if n > s.len() - q {
            None
        } else {
            spec_many(s, q, n, item)
        },
        None => None,
    }
}

/// A compact-size length, then that many bytes.
pub open spec fn spec_var_bytes(s: Seq<u8>, p: int) -> Option<(Seq<u8>, int)> {
    match spec_compact(s, p) {
        Some((n, q)) => spec_take(s, q, n as int),
        None => None,
    }
}

pub open spec fn spec_input(s: Seq<u8>, p: int) -> Option<(InputModel, int)> {
    match spec_take(s, p, 32) {
        Some((txid, p1)) => match spec_le(s, p1, 4) {
            Some((index, p2)) => match spec_var_bytes(s, p2) {
                Some((script, p3)) => match spec_le(s, p3, 4) {
                    Some((sequence, p4)) => Some(
                        (
                            InputModel {
                                prev_txid: txid,
                                prev_index: index,
                                script_sig: script,
                                sequence,
                            },
                            p4,
                        ),
                    ),
                    None => None,
                },
                None => None,
            },
            None => None,
        },
        None => None,
    }
}

pub open spec fn spec_output(s: Seq<u8>, p: int) -> Option<(OutputModel, int)> {
    match spec_le(s, p, 8) {
        Some((amount, p1)) => match spec_var_bytes(s, p1) {
            Some((script, p2)) => Some((OutputModel { amount, script }, p2)),
            None => None,
        },
        None => None,
    }
}

pub open spec fn input_item() -> spec_fn(Seq<u8>, int) -> Option<(InputModel, int)> {
    |s: Seq<u8>, p: int| spec_input(s, p)
}

pub open spec fn output_item() -> spec_fn(Seq<u8>, int) -> Option<(OutputModel, int)> {
    |s: Seq<u8>, p: int| spec_output(s, p)
}

pub open spec fn bytes_item() -> spec_fn(Seq<u8>, int) -> Option<(Seq<u8>, int)> {
    |s: Seq<u8>, p: int| spec_var_bytes(s, p)
}

pub open spec fn stack_item() -> spec_fn(Seq<u8>, int) -> Option<(Seq<Seq<u8>>, int)> {
    |s: Seq<u8>, p: int| spec_list(s, p, bytes_item())
}

/// Whether the bytes after the version announce the witness form: a zero
/// marker byte, which must be followed by the flag byte 1.
pub open spec fn spec_marker(s: Seq<u8>) -> Option<bool> {
    if s.len() > 4 && s[4] == 0 {
        if s.len() > 5 && s[5] == 1 {
            Some(true)
        } else {
            None
        }
    } else {
        Some(false)
    }
}

/// The witness stacks: one per input in the witness form, of which at least
/// one is not empty; none in the legacy form.
pub open spec fn spec_witnesses(s: Seq<u8>, p: int, segwit: bool, n: nat) -> Option<
    (Seq<Seq<Seq<u8>>>, int),
> {
    if segwit {
        match spec_many(s, p, n, stack_item()) {
            Some((w, q)) => if forall|i: int| 0 <= i < w.len() ==> #[trigger] w[i].len() == 0 {
                None
            } else {
                Some((w, q))
            },
            None => None,
        }
    } else {
        Some((Seq::empty(), p))
    }
}

/// The transaction that `s` serializes, if it is one.
pub open spec fn spec_transaction(s: Seq<u8>) -> Option<TxModel> {
    match spec_le(s, 0, 4) {
        Some((version, p1)) => match spec_marker(s) {
            Some(segwit) => match spec_list(s, if segwit { p1 + 2 } else { p1 }, input_item()) {
                Some((inputs, p2)) => match spec_list(s, p2, output_item()) {
                    Some((outputs, p3)) => match spec_witnesses(s, p3, segwit, inputs.len()) {
                        Some((witnesses, p4)) => match spec_le(s, p4, 4) {
                            Some((lock_time, p5)) => if p5 == s.len() {
                                Some(
                                    TxModel {
                                        version,
                                        segwit,
                                        inputs,
                                        outputs,
                                        witnesses,
                                        lock_time,
                                        stripped: if segwit {
                                            s.subrange(0, 4) + s.subrange(p1 + 2, p3) + s.subrange(
                                                p4,
                                                p5,
                                            )
                                        } else {
                                            s
                                        },
                                    },
                                )
                            } else {
                                None
                            },
                            None => None,
                        },
                        None => None,
                    },
                    None => None,
                },
                None => None,
            },
            None => None,
        },
        None => None,
    }
}

pub(crate) proof fn lemma_many_none<T>(
    s: Seq<u8>,
    p: int,
    k: nat,
    m: nat,
    item: spec_fn(Seq<u8>, int) -> Option<(T, int)>,
)
    requires
        k <= m,
        spec_many(s, p, k, item) is None,
    ensures
        spec_many(s, p, m, item) is None,
    decreases m,
{
    if k < m {
        lemma_many_none(s, p, k, (m - 1) as nat, item);
    }
}

fn parse_var_bytes(s: &Vec<u8>, p: usize) -> (r: Option<(Vec<u8>, usize)>)
    ensures
        match r {
            Some((x, q)) => spec_var_bytes(s@, p as int) == Some((x@, q as int)),
            None => spec_var_bytes(s@, p as int) is None,
        },
        r matches Some((_, q)) ==> p <= q,
{
    match read_compact(s, p) {
        Some((n, q)) => {
            if n > (s.len() - q) as u64 {
                None
            } else {
                let x = take_bytes(s, q, n as usize);
                Some((x, q + n as usize))
            }
        },
        None => None,
    }
}

fn parse_input(s: &Vec<u8>, p: usize) -> (r: Option<(TxInput, usize)>)
    ensures
        match r {
            Some((x, q)) => spec_input(s@, p as int) == Some((x@, q as int)),
            None => spec_input(s@, p as int) is None,
        },
        r matches Some((_, q)) ==> p <= q,
{
    if p > s.len() || 32 > s.len() - p {
        return None;
    }
    let prev_txid = take_bytes(s, p, 32);
    let p1 = p + 32;
    if 4 > s.len() - p1 {
        return None;
    }
    let prev_index = read_u32(s, p1);
    let p2 = p1 + 4;
    let (script_sig, p3) = match parse_var_bytes(s, p2) {
        Some(v) => v,
        None => return None,
    };
    if 4 > s.len() - p3 {
        return None;
    }
    let sequence = read_u32(s, p3);
    Some((TxInput { prev_txid, prev_index, script_sig, sequence }, p3 + 4))
}

fn parse_output(s: &Vec<u8>, p: usize) -> (r: Option<(TxOut, usize)>)
    ensures
        match r {
            Some((x, q)) => spec_output(s@, p as int) == Some((x@, q as int)),
            None => spec_output(s@, p as int) is None,
        },
        r matches Some((_, q)) ==> p <= q,
{
    if p > s.len() || 8 > s.len() - p {
        return None;
    }
    let amount = read_le(s, p, 8);
    match parse_var_bytes(s, p + 8) {
        Some((script, q)) => Some((TxOut { amount, script }, q)),
        None => None,
    }
}

fn parse_inputs(s: &Vec<u8>, p: usize) -> (r: Option<(Vec<TxInput>, usize)>)
    ensures
        match r {
            Some((xs, q)) => spec_list(s@, p as int, input_item()) == Some(
                (xs@.map_values(|x: TxInput| x@), q as int),
            ),
            None => spec_list(s@, p as int, input_item()) is None,
        },
        r matches Some((_, q)) ==> p <= q,
{
    let (n, q0) = match read_compact(s, p) {
        Some(v) => v,
        None => return None,
    };
    if n > (s.len() - q0) as u64 {
        return None;
    }
    let n = n as usize;
    let mut xs: Vec<TxInput> = Vec::new();
    let mut q = q0;
    let mut k: usize = 0;
    while k < n
        invariant
            k <= n,
            spec_compact(s@, p as int) == Some((n as nat, q0 as int)),
            n <= s@.len() - q0,
            p < q0 <= q,
            spec_many(s@, q0 as int, k as nat, input_item()) == Some(
                (xs@.map_values(|x: TxInput| x@), q as int),
            ),
        decreases n - k,
    {
        let ghost before = xs@.map_values(|x: TxInput| x@);
        match parse_input(s, q) {
            Some((x, q1)) => {
                xs.push(x);
                q = q1;
                k = k + 1;
                assert(xs@.map_values(|x: TxInput| x@) =~= before.push(x@));
            },
            None => {
                proof {
                    lemma_many_none(s@, q0 as int, (k + 1) as nat, n as nat, input_item());
                }
                return None;
            },
        }
    }
    Some((xs, q))
}

fn parse_outputs(s: &Vec<u8>, p: usize) -> (r: Option<(Vec<TxOut>, usize)>)
    ensures
        match r {
            Some((xs, q)) => spec_list(s@, p as int, output_item()) == Some(
                (xs@.map_values(|x: TxOut| x@), q as int),
            ),
            None => spec_list(s@, p as int, output_item()) is None,
        },
        r matches Some((_, q)) ==> p <= q,
{
    let (n, q0) = match read_compact(s, p) {
        Some(v) => v,
        None => return None,
    };
    if n > (s.len() - q0) as u64 {
        return None;
    }
    let n = n as usize;
    let mut xs: Vec<TxOut> = Vec::new();
    let mut q = q0;
    let mut k: usize = 0;
    while k < n
        invariant
            k <= n,
            spec_compact(s@, p as int) == Some((n as nat, q0 as int)),
            n <= s@.len() - q0,
            p < q0 <= q,
            spec_many(s@, q0 as int, k as nat, output_item()) == Some(
                (xs@.map_values(|x: TxOut| x@), q as int),
            ),
        decreases n - k,
    {
        let ghost before = xs@.map_values(|x: TxOut| x@);
        match parse_output(s, q) {
            Some((x, q1)) => {
                xs.push(x);
                q = q1;
                k = k + 1;
                assert(xs@.map_values(|x: TxOut| x@) =~= before.push(x@));
            },
            None => {
                proof {
                    lemma_many_none(s@, q0 as int, (k + 1) as nat, n as nat, output_item());
                }
                return None;
            },
        }
    }
    Some((xs, q))
}

fn parse_stack(s: &Vec<u8>, p: usize) -> (r: Option<(Vec<Vec<u8>>, usize)>)
    ensures
        match r {
            Some((xs, q)) => spec_list(s@, p as int, bytes_item()) == Some(
                (xs@.map_values(|x: Vec<u8>| x@), q as int),
            ),
            None => spec_list(s@, p as int, bytes_item()) is None,
        },
        r matches Some((_, q)) ==> p <= q,
{
    let (n, q0) = match read_compact(s, p) {
        Some(v) => v,
        None => return None,
    };
    if n > (s.len() - q0) as u64 {
        return None;
    }
    let n = n as usize;
    let mut xs: Vec<Vec<u8>> = Vec::new();
    let mut q = q0;
    let mut k: usize = 0;
    while k < n
        invariant
            k <= n,
            spec_compact(s@, p as int) == Some((n as nat, q0 as int)),
            n <= s@.len() - q0,
            p < q0 <= q,
            spec_many(s@, q0 as int, k as nat, bytes_item()) == Some(
                (xs@.map_values(|x: Vec<u8>| x@), q as int),
            ),
        decreases n - k,
    {
        let ghost before = xs@.map_values(|x: Vec<u8>| x@);
        match parse_var_bytes(s, q) {
            Some((x, q1)) => {
                xs.push(x);
                q = q1;
                k = k + 1;
                assert(xs@.map_values(|x: Vec<u8>| x@) =~= before.push(x@));
            },
            None => {
                proof {
                    lemma_many_none(s@, q0 as int, (k + 1) as nat, n as nat, bytes_item());
                }
                return None;
            },
        }
    }
    Some((xs, q))
}

fn parse_witnesses(s: &Vec<u8>, p: usize, n: usize) -> (r: Option<(Vec<Vec<Vec<u8>>>, usize)>)
    ensures
        match r {
            Some((xs, q)) => spec_witnesses(s@, p as int, true, n as nat) == Some(
                (xs@.map_values(|w: Vec<Vec<u8>>| w@.map_values(|x: Vec<u8>| x@)), q as int),
            ),
            None => spec_witnesses(s@, p as int, true, n as nat) is None,
        },
        r matches Some((_, q)) ==> p <= q,
{
    let mut xs: Vec<Vec<Vec<u8>>> = Vec::new();
    let mut q = p;
    let mut k: usize = 0;
    let mut all_empty = true;
    while k < n
        invariant
            k <= n,
            k == xs@.len(),
            p <= q,
            spec_many(s@, p as int, k as nat, stack_item()) == Some(
                (xs@.map_values(|w: Vec<Vec<u8>>| w@.map_values(|x: Vec<u8>| x@)), q as int),
            ),
            all_empty == forall|i: int| 0 <= i < xs@.len() ==> (#[trigger] xs@[i])@.len() == 0,
        decreases n - k,
    {
        let ghost before = xs@.map_values(|w: Vec<Vec<u8>>| w@.map_values(|x: Vec<u8>| x@));
        match parse_stack(s, q) {
            Some((w, q1)) => {
                let ghost old_xs = xs@;
                let ghost old_empty = all_empty;
                if w.len() > 0 {
                    all_empty = false;
                }
                xs.push(w);
                assert(forall|i: int| 0 <= i < old_xs.len() ==> #[trigger] xs@[i] == old_xs[i]);
                assert(xs@[old_xs.len() as int] == w);
                proof {
                    if all_empty {
                        assert forall|i: int| 0 <= i < xs@.len() implies (#[trigger] xs@[i])@.len()
                            == 0 by {
                            if i < old_xs.len() {
                                assert(old_xs[i]@.len() == 0);
                            }
                        }
                    } else if !old_empty {
                        let j = choose|j: int| 0 <= j < old_xs.len() && (#[trigger] old_xs[j])@.len() != 0;
                        assert(xs@[j]@.len() != 0);
                    } else {
                        assert(xs@[old_xs.len() as int]@.len() != 0);
                    }
                }
                q = q1;
                k = k + 1;
                assert(xs@.map_values(|w: Vec<Vec<u8>>| w@.map_values(|x: Vec<u8>| x@))
                    =~= before.push(w@.map_values(|x: Vec<u8>| x@)));
            },
            None => {
                proof {
                    lemma_many_none(s@, p as int, (k + 1) as nat, n as nat, stack_item());
                }
                return None;
            },
        }
    }
    let ghost ws = xs@.map_values(|w: Vec<Vec<u8>>| w@.map_values(|x: Vec<u8>| x@));
    assert(all_empty == forall|i: int| 0 <= i < ws.len() ==> #[trigger] ws[i].len() == 0) by {
        if !all_empty {
            let i = choose|i: int| 0 <= i < xs@.len() && (#[trigger] xs@[i])@.len() != 0;
            assert(ws[i].len() != 0);
        } else {
            assert forall|i: int| 0 <= i < ws.len() implies #[trigger] ws[i].len() == 0 by {
                assert(xs@[i]@.len() == 0);
            }
        }
    }
    if all_empty {
        None
    } else {
        Some((xs, q))
    }
}

/// Parses a serialized transaction; the bytes must hold exactly one.
pub fn parse_transaction(s: &Vec<u8>) -> (r: Option<Transaction>)
    ensures
        match r {
            Some(t) => spec_transaction(s@) == Some(t@),
            None => spec_transaction(s@) is None,
        },
{
    if s.len() < 4 {
        return None;
    }
    let version = read_u32(s, 0);
    let segwit = if s.len() > 4 && s[4] == 0 {
        if s.len() > 5 && s[5] == 1 {
            true
        } else {
            return None;
        }
    } else {
        false
    };
    let p1: usize = if segwit {
        6
    } else {
        4
    };
    let (inputs, p2) = match parse_inputs(s, p1) {
        Some(v) => v,
        None => return None,
    };
    let (outputs, p3) = match parse_outputs(s, p2) {
        Some(v) => v,
        None => return None,
    };
    let (witnesses, p4) = if segwit {
        match parse_witnesses(s, p3, inputs.len()) {
            Some(v) => v,
            None => return None,
        }
    } else {
        (Vec::new(), p3)
    };
    if p4 > s.len() || 4 > s.len() - p4 {
        return None;
    }
    let lock_time = read_u32(s, p4);
    if p4 + 4 != s.len() {
        return None;
    }
    let stripped = if segwit {
        let mut a = take_bytes(s, 0, 4);
        let mut b = take_bytes(s, 6, p3 - 6);
        let mut c = take_bytes(s, p4, 4);
        a.append(&mut b);
        a.append(&mut c);
        a
    } else {
        take_bytes(s, 0, s.len())
    };
    proof {
        if !segwit {
            assert(stripped@ =~= s@);
        }
    }
    let t = Transaction { version, segwit, inputs, outputs, witnesses, lock_time, stripped };
    proof {
        assert(t@.witnesses =~= spec_witnesses(s@, p3 as int, segwit, t@.inputs.len()).unwrap().0);
    }
    Some(t)
}

} // verus!
