//! The node's permanent identity: how the identity file is read and written,
//! and how a stored identity and a supplied one are reconciled at startup.
use vstd::prelude::*;

verus! {

/// ASCII code of `'0'`.
pub const DIGIT_ZERO: u8 = 48;

/// ASCII code of `'+'`.
pub const PLUS_SIGN: u8 = 43;

/// Whether `c` is an ASCII decimal digit.
pub open spec fn is_digit(c: u8) -> bool {
    DIGIT_ZERO <= c && c <= 57
}

/// Whether every byte of `s` is an ASCII decimal digit.
pub open spec fn all_digits(s: Seq<u8>) -> bool {
    forall|i: int| 0 <= i < s.len() ==> is_digit(#[trigger] s[i])
}

/// The number written by the decimal digits `s`, most significant first.
pub open spec fn digits_value(s: Seq<u8>) -> nat
    decreases s.len(),
{
    if s.len() == 0 {
        0
    } else {
        digits_value(s.drop_last()) * 10 + (s.last() - DIGIT_ZERO) as nat
    }
}

/// The text after an optional leading `'+'`.
pub open spec fn unsigned_part(s: Seq<u8>) -> Seq<u8> {
    if s.len() > 0 && s[0] == PLUS_SIGN {
        s.drop_first()
    } else {
        s
    }
}

/// The identity that the text `s` holds: an optional `'+'` and at least one
/// decimal digit, whose value fits in 64 bits.
pub open spec fn parse_id_spec(s: Seq<u8>) -> Option<u64> {
    let d = unsigned_part(s);
    if d.len() > 0 && all_digits(d) && digits_value(d) <= u64::MAX {
        Some(digits_value(d) as u64)
    } else {
        None
    }
}

/// The shortest decimal text of `n`.
pub open spec fn decimal_of(n: nat) -> Seq<u8>
    decreases n,
{
    if n < 10 {
        seq![(DIGIT_ZERO + n) as u8]
    } else {
        decimal_of(n / 10).push((DIGIT_ZERO + n % 10) as u8)
    }
}

/// Why the identity could not be settled.
#[derive(Debug, Clone, Copy, PartialEq, Eq, Structural)]
pub enum IdentityError {
    /// The data directory already belongs to another identity.
    Conflict { persisted: u64, supplied: u64 },
    /// There is no identity file and no identity was supplied.
    Missing,
    /// The identity file does not hold a number.
    Malformed,
}

/// The settled identity, and the text to write to the identity file when
/// the data directory had none.
#[derive(Debug, Clone, PartialEq, Eq)]
pub struct ResolvedIdentity {
    pub id: u64,
    pub to_persist: Option<Vec<u8>>,
}

/// What the identity file holds, if there is one.
pub open spec fn stored_view(stored: Option<&[u8]>) -> Option<Seq<u8>> {
    match stored {
        Some(b) => Some(b@),
        None => None,
    }
}

/// The text that a resolution writes, if any.
pub open spec fn persist_view(p: Option<Vec<u8>>) -> Option<Seq<u8>> {
    match p {
        Some(v) => Some(v@),
        None => None,
    }
}

/// How a stored identity file and a supplied identity are reconciled: a
/// stored identity wins and must agree with the supplied one; without one,
/// the supplied identity is taken and written out.
pub open spec fn resolve_spec(stored: Option<Seq<u8>>, supplied: Option<u64>) -> Result<
    (u64, Option<Seq<u8>>),
    IdentityError,
> {
    match stored {
        Some(b) => match parse_id_spec(b) {
            None => Err(IdentityError::Malformed),
            Some(p) => match supplied {
                Some(s) => if s != p {
                    Err(IdentityError::Conflict { persisted: p, supplied: s })
                } else {
                    Ok((p, None))
                },
                None => Ok((p, None)),
            },
        },
        None => match supplied {
            None => Err(IdentityError::Missing),
            Some(s) => Ok((s, Some(decimal_of(s as nat)))),
        },
    }
}

/// What the identity file holds after a resolution.
pub open spec fn stored_after(stored: Option<Seq<u8>>, supplied: Option<u64>) -> Option<Seq<u8>> {
    match resolve_spec(stored, supplied) {
        Ok((_, Some(w))) => Some(w),
        _ => stored,
    }
}

proof fn lemma_prefix_value_grows(s: Seq<u8>, k: int, n: int)
    requires
        0 <= k <= n <= s.len(),
    ensures
        digits_value(s.take(k)) <= digits_value(s.take(n)),
    decreases n - k,
{
    if k < n {
        lemma_prefix_value_grows(s, k, n - 1);
        assert(s.take(n).drop_last() =~= s.take(n - 1));
    }
}

/// Reads the identity written in `text`.
pub fn parse_id(text: &[u8]) -> (r: Option<u64>)
    ensures
        r == parse_id_spec(text@),
{
    let start: usize = if text.len() > 0 && text[0] == PLUS_SIGN {
        1
    } else {
        0
    };
    let ghost d = unsigned_part(text@);
    assert(d =~= text@.subrange(start as int, text@.len() as int));
    if start >= text.len() {
        return None;
    }
    let mut acc: u64 = 0;
    let mut i: usize = start;
    while i < text.len()
        invariant
            start <= i <= text.len(),
            d == unsigned_part(text@),
            d =~= text@.subrange(start as int, text@.len() as int),
            all_digits(d.take(i - start)),
            acc as nat == digits_value(d.take(i - start)),
        decreases text.len() - i,
    {
        let c = text[i];
        assert(d[i - start] == c);
        if c < DIGIT_ZERO || c > 57 {
            assert(!is_digit(d[i - start]));
            return None;
        }
        let digit = (c - DIGIT_ZERO) as u64;
        assert(d.take(i - start + 1).drop_last() =~= d.take(i - start));
        assert(d.take(i - start + 1).last() == c);
        assert(digits_value(d.take(i - start + 1)) == acc * 10 + digit);
        if acc > (u64::MAX - digit) / 10 {
            proof {
                assert(acc * 10 + digit > u64::MAX) by (nonlinear_arith)
                    requires
                        acc > (u64::MAX - digit) / 10,
                        digit <= 9,
                ;
                lemma_prefix_value_grows(d, i - start + 1, d.len() as int);
                assert(d.take(d.len() as int) =~= d);
            }
            return None;
        }
        acc = acc * 10 + digit;
        i = i + 1;
        assert(all_digits(d.take(i - start)));
    }
    assert(d.take(i - start) =~= d);
    Some(acc)
}

/// Appends the shortest decimal text of `n` to `out`.
fn push_decimal(n: u64, out: &mut Vec<u8>)
    ensures
        final(out)@ == old(out)@ + decimal_of(n as nat),
    decreases n,
{
    if n >= 10 {
        push_decimal(n / 10, out);
    }
    out.push(DIGIT_ZERO + (n % 10) as u8);
    assert(final(out)@ =~= old(out)@ + decimal_of(n as nat));
}

/// The text written to the identity file for identity `n`.
pub fn format_id(n: u64) -> (r: Vec<u8>)
    ensures
        r@ == decimal_of(n as nat),
{
    let mut out: Vec<u8> = Vec::new();
    push_decimal(n, &mut out);
    assert(out@ =~= decimal_of(n as nat));
    out
}

/// Settles the node's identity from what the identity file holds (`None`
/// when there is no such file) and the identity supplied at startup.
pub fn resolve_identity(stored: Option<&[u8]>, supplied: Option<u64>) -> (r: Result<
    ResolvedIdentity,
    IdentityError,
>)
    ensures
        match r {
            Ok(res) => resolve_spec(stored_view(stored), supplied) == Ok::<
                (u64, Option<Seq<u8>>),
                IdentityError,
            >((res.id, persist_view(res.to_persist))),
            Err(e) => resolve_spec(stored_view(stored), supplied) == Err::<
                (u64, Option<Seq<u8>>),
                IdentityError,
            >(e),
        },
{
    match stored {
        Some(text) => match parse_id(text) {
            None => Err(IdentityError::Malformed),
            Some(p) => match supplied {
                Some(s) => if s != p {
                    Err(IdentityError::Conflict { persisted: p, supplied: s })
                } else {
                    Ok(ResolvedIdentity { id: p, to_persist: None })
                },
                None => Ok(ResolvedIdentity { id: p, to_persist: None }),
            },
        },
        None => match supplied {
            None => Err(IdentityError::Missing),
            Some(s) => Ok(ResolvedIdentity { id: s, to_persist: Some(format_id(s)) }),
        },
    }
}

/// The decimal text of `n` is digits only, does not start with `'+'`, and
/// reads back as `n`.
pub proof fn lemma_decimal_round_trip(n: nat)
    ensures
        decimal_of(n).len() > 0,
        all_digits(decimal_of(n)),
        decimal_of(n)[0] != PLUS_SIGN,
        digits_value(decimal_of(n)) == n,
    decreases n,
{
    if n >= 10 {
        lemma_decimal_round_trip(n / 10);
        let s = decimal_of(n);
        assert(s.drop_last() =~= decimal_of(n / 10));
        assert(s.last() == (DIGIT_ZERO + n % 10) as u8);
        assert(digits_value(s) == digits_value(decimal_of(n / 10)) * 10 + n % 10);
        assert((n / 10) * 10 + n % 10 == n);
        assert forall|i: int| 0 <= i < s.len() implies is_digit(#[trigger] s[i]) by {
            if i < s.len() - 1 {
                assert(s[i] == decimal_of(n / 10)[i]);
            }
        }
    } else {
        assert(decimal_of(n).drop_last() =~= Seq::<u8>::empty());
        assert(digits_value(Seq::<u8>::empty()) == 0);
        assert(digits_value(decimal_of(n)) == n);
    }
}

/// Every identity reads back from the text written for it.
pub proof fn lemma_parse_format(n: u64)
    ensures
        parse_id_spec(decimal_of(n as nat)) == Some(n),
{
    lemma_decimal_round_trip(n as nat);
}

/// On a data directory without an identity file, a supplied identity `n` is
/// taken and written out; every later start that supplies no identity, or
/// `n` again, comes back with `n` and writes nothing.
pub proof fn lemma_first_start_persists(n: u64, later: Option<u64>)
    requires
        later is None || later == Some(n),
    ensures
        resolve_spec(None, Some(n)) == Ok::<(u64, Option<Seq<u8>>), IdentityError>(
            (n, Some(decimal_of(n as nat))),
        ),
        stored_after(None, Some(n)) == Some(decimal_of(n as nat)),
        resolve_spec(stored_after(None, Some(n)), later) == Ok::<
            (u64, Option<Seq<u8>>),
            IdentityError,
        >((n, None)),
{
    lemma_parse_format(n);
}

/// Where the identity file holds `n`, supplying any other identity `m` fails
/// with a conflict naming both, and the file is left as it was.
pub proof fn lemma_conflict_keeps_store(stored: Seq<u8>, n: u64, m: u64)
    requires
        parse_id_spec(stored) == Some(n),
        m != n,
    ensures
        resolve_spec(Some(stored), Some(m)) == Err::<(u64, Option<Seq<u8>>), IdentityError>(
            IdentityError::Conflict { persisted: n, supplied: m },
        ),
        stored_after(Some(stored), Some(m)) == Some(stored),
{
}

} // verus!
