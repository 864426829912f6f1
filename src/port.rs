//! The `PORT` argument: six comma-separated decimal fields that give an IPv4
//! address and a TCP port.
use vstd::prelude::*;
use vstd::slice::slice_subrange;
use crate::error::DecodeError;

verus! {

/// Ports at or below this value are refused by default for active-mode data
/// connections.
pub const PRIVILEGED_PORT_MAX: u16 = 1024;

/// An ASCII decimal digit.
pub open spec fn is_digit(b: u8) -> bool {
    48 <= b <= 57
}

/// The number that a string of decimal digits denotes.
pub open spec fn decimal_value(f: Seq<u8>) -> nat
    decreases f.len(),
{
    if f.len() == 0 {
        0
    } else {
        decimal_value(f.drop_last()) * 10 + (f.last() - 48) as nat
    }
}

/// The octet that a field denotes: one or more decimal digits whose value is
/// at most 255.
pub open spec fn octet_of(f: Seq<u8>) -> Option<u8> {
    if f.len() > 0 && (forall|k: int| 0 <= k < f.len() ==> is_digit(#[trigger] f[k]))
        && decimal_value(f) <= 255 {
        Some(decimal_value(f) as u8)
    } else {
        None
    }
}

/// The pieces of `s` between commas, in order (a string without commas is one
/// field; every comma starts a new one).
pub open spec fn comma_fields(s: Seq<u8>) -> Seq<Seq<u8>>
    decreases s.len(),
{
    if s.len() == 0 {
        seq![Seq::empty()]
    } else {
        let f = comma_fields(s.drop_last());
        if s.last() == 44 {
            f.push(Seq::empty())
        } else {
            f.update(f.len() - 1, f.last().push(s.last()))
        }
    }
}

/// Every field denotes an octet.
pub open spec fn all_octets(fields: Seq<Seq<u8>>) -> bool {
    forall|k: int| 0 <= k < fields.len() ==> (#[trigger] octet_of(fields[k])) is Some
}

/// The octet of a field known to denote one.
pub open spec fn octet_at(fields: Seq<Seq<u8>>, k: int) -> u8 {
    octet_of(fields[k])->Some_0
}

/// The decoded `PORT` argument: the four address octets, most significant
/// first, and the port, 256 times the fifth field plus the sixth, which must
/// exceed `floor`.
pub open spec fn port_arg_spec(arg: Seq<u8>, floor: u16) -> Result<(Seq<u8>, u16), DecodeError> {
    let f = comma_fields(arg);
    if f.len() != 6 || !all_octets(f) {
        Err(DecodeError::InvalidAddress)
    } else {
        let p = octet_at(f, 4) as int * 256 + octet_at(f, 5) as int;
        if p <= floor as int {
            Err(DecodeError::InvalidPort)
        } else {
            Ok((seq![octet_at(f, 0), octet_at(f, 1), octet_at(f, 2), octet_at(f, 3)], p as u16))
        }
    }
}

/// Reads one field as an octet.
pub fn parse_octet(f: &[u8]) -> (r: Option<u8>)
    ensures
        r == octet_of(f@),
{
    if f.len() == 0 {
        return None;
    }
    let mut value: u16 = 0;
    let mut big: bool = false;
    let mut i: usize = 0;
    while i < f.len()
        invariant
            i <= f@.len(),
            forall|k: int| 0 <= k < i ==> is_digit(#[trigger] f@[k]),
            !big ==> value as nat == decimal_value(f@.subrange(0, i as int)) && value <= 255,
            big ==> decimal_value(f@.subrange(0, i as int)) > 255,
        decreases f@.len() - i,
    {
        let b = f[i];
        if b < 48 || b > 57 {
            assert(!is_digit(f@[i as int]));
            return None;
        }
        proof {
            assert(f@.subrange(0, i + 1).drop_last() =~= f@.subrange(0, i as int));
        }
        if !big {
            let next: u16 = value * 10 + (b - 48) as u16;
            if next > 255 {
                big = true;
            } else {
                value = next;
            }
        }
        i += 1;
    }
    assert(f@ =~= f@.subrange(0, i as int));
    if big {
        None
    } else {
        Some(value as u8)
    }
}

proof fn lemma_all_octets_push(done: Seq<Seq<u8>>, x: Seq<u8>)
    ensures
        all_octets(done.push(x)) <==> all_octets(done) && octet_of(x) is Some,
{
    let d = done.push(x);
    assert(d[done.len() as int] == x);
    if all_octets(done) && octet_of(x) is Some {
        assert forall|k: int| 0 <= k < d.len() implies (#[trigger] octet_of(d[k])) is Some by {
            if k < done.len() {
                assert(d[k] == done[k]);
            }
        }
    }
    if all_octets(d) {
        assert forall|k: int| 0 <= k < done.len() implies (#[trigger] octet_of(done[k])) is Some by {
            assert(d[k] == done[k]);
        }
    }
}

/// Decodes a `PORT` argument into the address octets and the port, refusing
/// ports at or below `floor`.
pub fn parse_port_arg(arg: &[u8], floor: u16) -> (r: Result<([u8; 4], u16), DecodeError>)
    ensures
        match r {
            Ok((a, p)) => port_arg_spec(arg@, floor) == Ok::<(Seq<u8>, u16), DecodeError>((a@, p)),
            Err(e) => port_arg_spec(arg@, floor) == Err::<(Seq<u8>, u16), DecodeError>(e),
        },
{
    let n = arg.len();
    let mut vals: Vec<u8> = Vec::new();
    let mut bad: bool = false;
    let mut start: usize = 0;
    let mut i: usize = 0;
    let ghost mut done: Seq<Seq<u8>> = Seq::empty();
    assert(arg@.subrange(0, 0) =~= Seq::<u8>::empty());
    assert(done.push(arg@.subrange(0, 0)) =~= seq![Seq::<u8>::empty()]);
    while i < n
        invariant
            n == arg@.len(),
            start <= i <= n,
            comma_fields(arg@.subrange(0, i as int)) == done.push(arg@.subrange(start as int, i as int)),
            bad <==> (done.len() >= 6 || !all_octets(done)),
            !bad ==> vals@.len() == done.len(),
            !bad ==> forall|k: int| 0 <= k < done.len() ==> octet_of(done[k]) == Some(#[trigger] vals@[k]),
        decreases n - i,
    {
        let ghost prev = done;
        assert(arg@.subrange(0, i + 1).drop_last() =~= arg@.subrange(0, i as int));
        if arg[i] == 44 {
            let field = slice_subrange(arg, start, i);
            proof {
                done = done.push(field@);
                lemma_all_octets_push(prev, field@);
            }
            if !bad {
                match parse_octet(field) {
                    Some(v) => {
                        if vals.len() >= 5 {
                            bad = true;
                        } else {
                            vals.push(v);
                            assert(done[prev.len() as int] == field@);
                            assert forall|k: int| 0 <= k < done.len() implies octet_of(done[k])
                                == Some(#[trigger] vals@[k]) by {
                                if k < prev.len() {
                                    assert(done[k] == prev[k]);
                                }
                            }
                        }
                    },
                    None => {
                        bad = true;
                    },
                }
            }
            start = i + 1;
            assert(arg@.subrange(start as int, i + 1) =~= Seq::<u8>::empty());
        } else {
            assert(arg@.subrange(start as int, i + 1) =~= arg@.subrange(start as int, i as int).push(arg@[i as int]));
        }
        i += 1;
    }
    assert(arg@ =~= arg@.subrange(0, n as int));
    let last = slice_subrange(arg, start, n);
    let ghost fields = done.push(last@);
    assert(comma_fields(arg@) == fields);
    proof {
        lemma_all_octets_push(done, last@);
    }
    if bad || vals.len() != 5 {
        return Err(DecodeError::InvalidAddress);
    }
    let low = match parse_octet(last) {
        Some(v) => v,
        None => {
            return Err(DecodeError::InvalidAddress);
        },
    };
    assert(fields[5] == last@);
    assert forall|k: int| 0 <= k < 5 implies fields[k] == done[k] by {}
    assert(octet_of(fields[0]) == Some(vals@[0]));
    assert(octet_of(fields[1]) == Some(vals@[1]));
    assert(octet_of(fields[2]) == Some(vals@[2]));
    assert(octet_of(fields[3]) == Some(vals@[3]));
    assert(octet_of(fields[4]) == Some(vals@[4]));
    let port: u16 = vals[4] as u16 * 256 + low as u16;
    if port <= floor {
        return Err(DecodeError::InvalidPort);
    }
    let addr: [u8; 4] = [vals[0], vals[1], vals[2], vals[3]];
    assert(addr@ =~= seq![vals@[0], vals@[1], vals@[2], vals@[3]]);
    Ok((addr, port))
}

/// Fields joined into one string, with a comma between each two.
pub open spec fn join_fields(f: Seq<Seq<u8>>) -> Seq<u8>
    decreases f.len(),
{
    if f.len() <= 1 {
        if f.len() == 1 {
            f[0]
        } else {
            Seq::empty()
        }
    } else {
        join_fields(f.drop_last()) + seq![44u8] + f.last()
    }
}

proof fn lemma_fields_nonempty(s: Seq<u8>)
    ensures
        comma_fields(s).len() >= 1,
    decreases s.len(),
{
    if s.len() > 0 {
        lemma_fields_nonempty(s.drop_last());
    }
}

/// Appending bytes without a comma extends the last field.
proof fn lemma_fields_extend(x: Seq<u8>, b: Seq<u8>)
    requires
        forall|i: int| 0 <= i < b.len() ==> #[trigger] b[i] != 44,
    ensures
        comma_fields(x + b) == comma_fields(x).update(
            comma_fields(x).len() - 1,
            comma_fields(x).last() + b,
        ),
    decreases b.len(),
{
    lemma_fields_nonempty(x);
    let f = comma_fields(x);
    if b.len() == 0 {
        assert(x + b =~= x);
        assert(f.last() + b =~= f.last());
        assert(f.update(f.len() - 1, f.last()) =~= f);
    } else {
        let b0 = b.drop_last();
        lemma_fields_extend(x, b0);
        assert((x + b).drop_last() =~= x + b0);
        assert((x + b).last() == b.last());
        assert(f.last() + b0 + seq![b.last()] =~= f.last() + b);
        assert((f.last() + b0).push(b.last()) =~= f.last() + b);
        assert(f.update(f.len() - 1, f.last() + b0).update(f.len() - 1, f.last() + b) =~= f.update(
            f.len() - 1,
            f.last() + b,
        ));
    }
}

/// Splitting joined fields at their commas gives the fields back, when no
/// field holds a comma.
pub proof fn lemma_split_join(f: Seq<Seq<u8>>)
    requires
        f.len() >= 1,
        forall|k: int, i: int| 0 <= k < f.len() && 0 <= i < f[k].len() ==> #[trigger] f[k][i] != 44,
    ensures
        comma_fields(join_fields(f)) == f,
    decreases f.len(),
{
    if f.len() == 1 {
        let b = f[0];
        assert forall|i: int| 0 <= i < b.len() implies #[trigger] b[i] != 44 by {
            assert(f[0][i] != 44);
        }
        lemma_fields_extend(Seq::empty(), b);
        assert(Seq::<u8>::empty() + b =~= b);
        assert(seq![Seq::<u8>::empty()].update(0, Seq::<u8>::empty() + b) =~= f);
    } else {
        let g = f.drop_last();
        assert forall|k: int, i: int| 0 <= k < g.len() && 0 <= i < g[k].len() implies #[trigger] g[k][i]
            != 44 by {
            assert(g[k] == f[k]);
        }
        lemma_split_join(g);
        let a = join_fields(g) + seq![44u8];
        assert((join_fields(g) + seq![44u8]).drop_last() =~= join_fields(g));
        assert(comma_fields(a) == g.push(Seq::empty()));
        let b = f.last();
        assert forall|i: int| 0 <= i < b.len() implies #[trigger] b[i] != 44 by {
            assert(f[f.len() - 1][i] != 44);
        }
        lemma_fields_extend(a, b);
        assert(Seq::<u8>::empty() + b =~= b);
        assert(g.push(Seq::empty()).update(g.len() as int, Seq::<u8>::empty() + b) =~= f);
    }
}

/// Six decimal fields of at most 255 decode to the first four as the address
/// and to the port 256 times the fifth plus the sixth, which is accepted
/// exactly when it exceeds `floor`.
pub proof fn lemma_port_fields(f: Seq<Seq<u8>>, floor: u16)
    requires
        f.len() == 6,
        all_octets(f),
    ensures
        ({
            let p = octet_at(f, 4) as int * 256 + octet_at(f, 5) as int;
            port_arg_spec(join_fields(f), floor) == if p > floor as int {
                Ok::<(Seq<u8>, u16), DecodeError>(
                    (seq![octet_at(f, 0), octet_at(f, 1), octet_at(f, 2), octet_at(f, 3)], p as u16),
                )
            } else {
                Err(DecodeError::InvalidPort)
            }
        }),
{
    assert forall|k: int, i: int| 0 <= k < f.len() && 0 <= i < f[k].len() implies #[trigger] f[k][i]
        != 44 by {
        assert(octet_of(f[k]) is Some);
        assert(is_digit(f[k][i]));
    }
    lemma_split_join(f);
}

} // verus!
