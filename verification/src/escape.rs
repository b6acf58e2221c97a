//! The escaper: the bidirectional transform that lets arbitrary payload
//! bytes share the byte stream with the reserved framing markers. Each
//! reserved byte becomes the escape marker followed by a one-byte code;
//! unescaping is the exact inverse and rejects every other use of the
//! reserved values inside the payload region.

use vstd::prelude::*;

use crate::error::DecodeError;
use crate::markers::EOP;
use crate::markers::ESC;
use crate::markers::ESC_EOP;
use crate::markers::ESC_ESC;
use crate::markers::ESC_SOP;
use crate::markers::SOP;

verus! {

/// The byte is one of the three reserved marker values.
pub open spec fn is_reserved(b: u8) -> bool {
    b == SOP || b == EOP || b == ESC
}

/// The one-byte escape code standing for a reserved byte.
pub open spec fn escape_code_of(b: u8) -> u8
    recommends
        is_reserved(b),
{
    if b == ESC {
        ESC_ESC
    } else if b == SOP {
        ESC_SOP
    } else {
        ESC_EOP
    }
}

/// The code is one of the three defined escape codes.
pub open spec fn is_escape_code(c: u8) -> bool {
    c == ESC_ESC || c == ESC_SOP || c == ESC_EOP
}

/// The reserved byte that an escape code stands for.
pub open spec fn reserved_of_code(c: u8) -> u8
    recommends
        is_escape_code(c),
{
    if c == ESC_ESC {
        ESC
    } else if c == ESC_SOP {
        SOP
    } else {
        EOP
    }
}

/// The escaped form of one byte: a reserved byte becomes the escape marker
/// followed by its code; any other byte passes through unchanged.
pub open spec fn escape_byte_spec(b: u8) -> Seq<u8> {
    if is_reserved(b) {
        seq![ESC, escape_code_of(b)]
    } else {
        seq![b]
    }
}

/// The escaped form of a byte sequence.
pub open spec fn escape_spec(s: Seq<u8>) -> Seq<u8>
    decreases s.len(),
{
    if s.len() == 0 {
        Seq::empty()
    } else {
        escape_byte_spec(s[0]) + escape_spec(s.skip(1))
    }
}

/// The inverse transform. `Ok` carries the unescaped bytes; `Err` carries
/// the offset of the offending byte: a trailing escape marker, the undefined
/// code after an escape marker, or a reserved byte standing unescaped.
pub open spec fn unescape_spec(s: Seq<u8>) -> Result<Seq<u8>, int>
    decreases s.len(),
{
    if s.len() == 0 {
        Ok(Seq::empty())
    } else if s[0] == ESC {
        if s.len() == 1 {
            Err(0)
        } else if is_escape_code(s[1]) {
            match unescape_spec(s.skip(2)) {
                Ok(t) => Ok(seq![reserved_of_code(s[1])] + t),
                Err(i) => Err(2 + i),
            }
        } else {
            Err(1)
        }
    } else if s[0] == SOP || s[0] == EOP {
        Err(0)
    } else {
        match unescape_spec(s.skip(1)) {
            Ok(t) => Ok(seq![s[0]] + t),
            Err(i) => Err(1 + i),
        }
    }
}

/// Escaping distributes over concatenation.
pub proof fn lemma_escape_append(a: Seq<u8>, b: Seq<u8>)
    ensures
        escape_spec(a + b) == escape_spec(a) + escape_spec(b),
    decreases a.len(),
{
    if a.len() == 0 {
        assert(a + b =~= b);
        assert(escape_spec(a) + escape_spec(b) =~= escape_spec(b));
    } else {
        assert((a + b).skip(1) =~= a.skip(1) + b);
        assert((a + b)[0] == a[0]);
        lemma_escape_append(a.skip(1), b);
        assert(escape_byte_spec(a[0]) + (escape_spec(a.skip(1)) + escape_spec(b)) =~= (
        escape_byte_spec(a[0]) + escape_spec(a.skip(1))) + escape_spec(b));
    }
}

/// Escaping one byte, as a sequence of length one.
proof fn lemma_escape_singleton(b: u8)
    ensures
        escape_spec(seq![b]) == escape_byte_spec(b),
{
    assert(seq![b].skip(1) =~= Seq::<u8>::empty());
    assert(escape_byte_spec(b) + escape_spec(seq![b].skip(1)) =~= escape_byte_spec(b));
}

/// Appends the escaped form of `bytes` to `buf`: each reserved byte becomes
/// the escape marker followed by its code, every other byte passes through.
pub fn escape_into(buf: &mut Vec<u8>, bytes: &[u8])
    ensures
        final(buf)@ == old(buf)@ + escape_spec(bytes@),
{
    let ghost buf0 = buf@;
    let mut i: usize = 0;
    while i < bytes.len()
        invariant
            i <= bytes@.len(),
            buf@ == buf0 + escape_spec(bytes@.take(i as int)),
        decreases bytes@.len() - i,
    {
        let b = bytes[i];
        proof {
            assert(bytes@.take(i as int + 1) =~= bytes@.take(i as int) + seq![bytes@[i as int]]);
            lemma_escape_append(bytes@.take(i as int), seq![bytes@[i as int]]);
            lemma_escape_singleton(bytes@[i as int]);
        }
        if b == ESC {
            buf.push(ESC);
            buf.push(ESC_ESC);
        } else if b == SOP {
            buf.push(ESC);
            buf.push(ESC_SOP);
        } else if b == EOP {
            buf.push(ESC);
            buf.push(ESC_EOP);
        } else {
            buf.push(b);
        }
        proof {
            assert(buf@ =~= buf0 + escape_spec(bytes@.take(i as int + 1)));
        }
        i = i + 1;
    }
    proof {
        assert(bytes@.take(bytes@.len() as int) =~= bytes@);
    }
}

/// The escaped form of `bytes`, as a fresh buffer.
pub fn escape(bytes: &[u8]) -> (r: Vec<u8>)
    ensures
        r@ == escape_spec(bytes@),
{
    let mut buf: Vec<u8> = Vec::new();
    escape_into(&mut buf, bytes);
    proof {
        assert(Seq::<u8>::empty() + escape_spec(bytes@) =~= escape_spec(bytes@));
    }
    buf
}

/// The inverse of [`escape`], reporting the offending byte offset on failure.
pub(crate) fn unescape_raw(bytes: &[u8]) -> (r: Result<Vec<u8>, usize>)
    ensures
        (r matches Ok(v) ==> unescape_spec(bytes@) == Ok::<Seq<u8>, int>(v@)),
        (r matches Err(k) ==> unescape_spec(bytes@) == Err::<Seq<u8>, int>(k as int) && (k as int)
            < bytes@.len()),
{
    let ghost s = bytes@;
    let mut out: Vec<u8> = Vec::new();
    let mut i: usize = 0;
    proof {
        assert(s.skip(0) =~= s);
        match unescape_spec(s) {
            Ok(t) => {
                assert(Seq::<u8>::empty() + t =~= t);
            },
            Err(_) => {},
        }
    }
    while i < bytes.len()
        invariant
            i <= s.len(),
            s == bytes@,
            (unescape_spec(s.skip(i as int)) matches Ok(t) ==> unescape_spec(s) == Ok::<
                Seq<u8>,
                int,
            >(out@ + t)),
            (unescape_spec(s.skip(i as int)) matches Err(k) ==> unescape_spec(s) == Err::<
                Seq<u8>,
                int,
            >(i + k)),
        decreases s.len() - i,
    {
        let ghost suf = s.skip(i as int);
        proof {
            assert(suf[0] == s[i as int]);
            assert(suf.len() == s.len() - i);
        }
        let b = bytes[i];
        if b == ESC {
            if i + 1 == bytes.len() {
                proof {
                    assert(unescape_spec(suf) == Err::<Seq<u8>, int>(0));
                }
                return Err(i);
            }
            let c = bytes[i + 1];
            proof {
                assert(suf[1] == s[i as int + 1]);
            }
            if c == ESC_ESC || c == ESC_SOP || c == ESC_EOP {
                proof {
                    assert(suf.skip(2) =~= s.skip(i as int + 2));
                }
                let m = if c == ESC_ESC {
                    ESC
                } else if c == ESC_SOP {
                    SOP
                } else {
                    EOP
                };
                let ghost out_pre = out@;
                out.push(m);
                proof {
                    assert(m == reserved_of_code(c));
                    match unescape_spec(s.skip(i as int + 2)) {
                        Ok(t) => {
                            assert(unescape_spec(suf) == Ok::<Seq<u8>, int>(seq![m] + t));
                            assert(out_pre + (seq![m] + t) =~= out@ + t);
                        },
                        Err(_) => {},
                    }
                }
                i = i + 2;
            } else {
                proof {
                    assert(unescape_spec(suf) == Err::<Seq<u8>, int>(1));
                }
                return Err(i + 1);
            }
        } else if b == SOP || b == EOP {
            proof {
                assert(unescape_spec(suf) == Err::<Seq<u8>, int>(0));
            }
            return Err(i);
        } else {
            proof {
                assert(suf.skip(1) =~= s.skip(i as int + 1));
            }
            let ghost out_pre = out@;
            out.push(b);
            proof {
                match unescape_spec(s.skip(i as int + 1)) {
                    Ok(t) => {
                        assert(unescape_spec(suf) == Ok::<Seq<u8>, int>(seq![b] + t));
                        assert(out_pre + (seq![b] + t) =~= out@ + t);
                    },
                    Err(_) => {},
                }
            }
            i = i + 1;
        }
    }
    proof {
        assert(s.skip(i as int) =~= Seq::<u8>::empty());
        assert(unescape_spec(s.skip(i as int)) == Ok::<Seq<u8>, int>(Seq::empty()));
        assert(out@ + Seq::<u8>::empty() =~= out@);
    }
    Ok(out)
}

/// The exact inverse of [`escape`]: an escape marker followed by one of the
/// three defined codes restores the original reserved byte; an escape marker
/// followed by any other value, a trailing escape marker, or an unescaped
/// reserved byte is a [`DecodeError::MalformedEscape`].
pub fn unescape(bytes: &[u8]) -> (r: Result<Vec<u8>, DecodeError>)
    ensures
        (r matches Ok(v) ==> unescape_spec(bytes@) == Ok::<Seq<u8>, int>(v@)),
        (r matches Err(e) ==> unescape_spec(bytes@) matches Err(k) && e == (
        DecodeError::MalformedEscape { offset: k as usize })),
{
    match unescape_raw(bytes) {
        Ok(v) => Ok(v),
        Err(k) => Err(DecodeError::MalformedEscape { offset: k }),
    }
}

/// Unescaping undoes escaping: the two transforms are a bijection between
/// raw byte sequences and well-formed escaped sequences.
pub proof fn lemma_unescape_escape(s: Seq<u8>)
    ensures
        unescape_spec(escape_spec(s)) == Ok::<Seq<u8>, int>(s),
    decreases s.len(),
{
    let e = escape_spec(s);
    if s.len() == 0 {
        assert(e =~= Seq::<u8>::empty());
        assert(s =~= Seq::<u8>::empty());
    } else {
        lemma_unescape_escape(s.skip(1));
        let rest = escape_spec(s.skip(1));
        if is_reserved(s[0]) {
            assert(e == seq![ESC, escape_code_of(s[0])] + rest);
            assert(e.len() >= 2);
            assert(e[0] == ESC);
            assert(e[1] == escape_code_of(s[0]));
            assert(is_escape_code(e[1]));
            assert(reserved_of_code(escape_code_of(s[0])) == s[0]);
            assert(e.skip(2) =~= rest);
            assert(unescape_spec(e) == Ok::<Seq<u8>, int>(
                seq![reserved_of_code(e[1])] + s.skip(1),
            ));
            assert(seq![s[0]] + s.skip(1) =~= s);
        } else {
            assert(e == seq![s[0]] + rest);
            assert(e[0] == s[0]);
            assert(e[0] != ESC && e[0] != SOP && e[0] != EOP);
            assert(e.skip(1) =~= rest);
            assert(unescape_spec(e) == Ok::<Seq<u8>, int>(seq![e[0]] + s.skip(1)));
            assert(seq![s[0]] + s.skip(1) =~= s);
        }
    }
}

} // verus!
