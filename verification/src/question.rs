use vstd::prelude::*;
use vstd::slice::{slice_index_get, slice_subrange};

use crate::errors::DecodeError;
use crate::header::{be_u16, parse_u16};

verus! {

/// The kind of record a question asks for.
#[derive(Clone, Copy, Debug, PartialEq, Eq, Structural)]
pub enum QType {
    A,
    NS,
    CNAME,
    SOA,
    WKS,
    PTR,
    MX,
    SRV,
    AAAA,
    ANY,
}

/// The class a question asks in; only the Internet class is recognized.
#[derive(Clone, Copy, Debug, PartialEq, Eq, Structural)]
pub enum QClass {
    IN,
}

/// The record type named by a wire code, or `None` for a code outside the
/// recognized set {1, 2, 5, 6, 11, 12, 15, 28, 33, 255}.
pub open spec fn qtype_of(n: u16) -> Option<QType> {
    if n == 1 {
        Some(QType::A)
    } else if n == 2 {
        Some(QType::NS)
    } else if n == 5 {
        Some(QType::CNAME)
    } else if n == 6 {
        Some(QType::SOA)
    } else if n == 11 {
        Some(QType::WKS)
    } else if n == 12 {
        Some(QType::PTR)
    } else if n == 15 {
        Some(QType::MX)
    } else if n == 28 {
        Some(QType::AAAA)
    } else if n == 33 {
        Some(QType::SRV)
    } else if n == 255 {
        Some(QType::ANY)
    } else {
        None
    }
}

/// The class named by a wire code: 1 is IN, everything else is unrecognized.
pub open spec fn qclass_of(n: u16) -> Option<QClass> {
    if n == 1 {
        Some(QClass::IN)
    } else {
        None
    }
}

impl QType {
    /// Maps a wire code to its record type; exactly the codes of
    /// `qtype_of` are accepted.
    pub fn from_u16(n: u16) -> (r: Option<QType>)
        ensures
            r == qtype_of(n),
    {
        match n {
            1 => Some(QType::A),
            2 => Some(QType::NS),
            5 => Some(QType::CNAME),
            6 => Some(QType::SOA),
            11 => Some(QType::WKS),
            12 => Some(QType::PTR),
            15 => Some(QType::MX),
            28 => Some(QType::AAAA),
            33 => Some(QType::SRV),
            255 => Some(QType::ANY),
            _ => None,
        }
    }
}

impl QClass {
    /// Maps a wire code to its class; only 1 (IN) is accepted.
    pub fn from_u16(n: u16) -> (r: Option<QClass>)
        ensures
            r == qclass_of(n),
    {
        match n {
            1 => Some(QClass::IN),
            _ => None,
        }
    }
}

/// The characters that lossy UTF-8 decoding gives for a byte sequence.
pub uninterp spec fn lossy_of(bytes: Seq<u8>) -> Seq<char>;

/// Relies on String::from_utf8_lossy: it never fails, and its characters
/// are a function of the input bytes alone (invalid sequences become
/// replacement characters).
#[verifier::external_body]
fn utf8_lossy(bytes: &[u8]) -> (r: String)
    ensures
        r@ == lossy_of(bytes@),
{
    String::from_utf8_lossy(bytes).into_owned()
}

/// The label sequence that starts at offset `i` of `s`, read as
/// length-prefixed labels up to a zero terminator, together with the offset
/// just past the terminator. `None` when the name runs past the end of the
/// buffer.
pub open spec fn name_at(s: Seq<u8>, i: int) -> Option<(Seq<Seq<u8>>, int)>
    decreases s.len() - i,
{
    if i < 0 || i >= s.len() {
        None
    } else if s[i] == 0 {
        Some((Seq::empty(), i + 1))
    } else if i + 1 + s[i] as int > s.len() {
        None
    } else {
        match name_at(s, i + 1 + s[i] as int) {
            None => None,
            Some((rest, j)) => Some((seq![s.subrange(i + 1, i + 1 + s[i] as int)] + rest, j)),
        }
    }
}

/// Puts labels already read in front of the rest of a name.
pub open spec fn prepend_labels(labs: Seq<Seq<u8>>, r: Option<(Seq<Seq<u8>>, int)>) -> Option<
    (Seq<Seq<u8>>, int),
> {
    match r {
        None => None,
        Some((rest, j)) => Some((labs + rest, j)),
    }
}

/// One question of a DNS message: its name as decoded labels, its type and
/// class, and how many bytes the encoded question occupied, counted from
/// the start of the name to the end of the class field.
#[derive(Debug, PartialEq)]
pub struct Question {
    pub qname: Vec<String>,
    pub qtype: QType,
    pub qclass: QClass,
    pub len: usize,
}

/// The error a question decode reports, or `None` when it succeeds: a name
/// or field running past the buffer end is truncation; with all fields in
/// bounds an unrecognized type code is reported first, then an unrecognized
/// class code.
pub open spec fn question_err(s: Seq<u8>) -> Option<DecodeError> {
    match name_at(s, 0) {
        None => Some(DecodeError::TruncatedQuestion),
        Some((labs, j)) => {
            if j + 4 > s.len() {
                Some(DecodeError::TruncatedQuestion)
            } else {
                let t = be_u16(s[j], s[j + 1]);
                let c = be_u16(s[j + 2], s[j + 3]);
                if qtype_of(t) is None {
                    Some(DecodeError::UnknownQueryType(t))
                } else if c != 1 {
                    Some(DecodeError::UnknownQueryClass(c))
                } else {
                    None
                }
            }
        },
    }
}

/// What a successfully decoded question holds: each label of the name,
/// lossily decoded as UTF-8; the type and class read just past the
/// terminator; and the byte length, which ends 4 bytes after the offset
/// that follows the terminator.
pub open spec fn question_matches(s: Seq<u8>, q: Question) -> bool {
    match name_at(s, 0) {
        None => false,
        Some((labs, j)) => {
            &&& j + 4 <= s.len()
            &&& q.qname@.len() == labs.len()
            &&& forall|k: int| 0 <= k < labs.len() ==> q.qname@[k]@ == lossy_of(labs[k])
            &&& qtype_of(be_u16(s[j], s[j + 1])) == Some(q.qtype)
            &&& be_u16(s[j + 2], s[j + 3]) == 1
            &&& q.qclass == QClass::IN
            &&& q.len == j + 4
        },
    }
}

/// Reads one length-prefixed part of a name from the start of `buf`.
/// A zero length byte is the terminator and gives `(0, None)`; otherwise
/// the label's bytes follow and give the length and the decoded label.
/// An empty buffer, or a label running past the end, is truncation.
pub fn parse_question_part(buf: &[u8]) -> (r: Result<(usize, Option<String>), DecodeError>)
    ensures
        buf@.len() == 0 ==> r == Err::<(usize, Option<String>), DecodeError>(
            DecodeError::TruncatedQuestion,
        ),
        buf@.len() > 0 && buf@[0] == 0 ==> r == Ok::<(usize, Option<String>), DecodeError>(
            (0, None),
        ),
        buf@.len() > 0 && buf@[0] != 0 && buf@[0] as int + 1 > buf@.len() ==> r == Err::<
            (usize, Option<String>),
            DecodeError,
        >(DecodeError::TruncatedQuestion),
        buf@.len() > 0 && buf@[0] != 0 && buf@[0] as int + 1 <= buf@.len() ==> (r matches Ok((
            n,
            os,
        )) && n == buf@[0] as int && (os matches Some(s) && s@ == lossy_of(
            buf@.subrange(1, buf@[0] as int + 1),
        ))),
{
    if buf.len() == 0 {
        return Err(DecodeError::TruncatedQuestion);
    }
    let len = *slice_index_get(buf, 0) as usize;
    if len == 0 {
        Ok((0, None))
    } else if len + 1 > buf.len() {
        Err(DecodeError::TruncatedQuestion)
    } else {
        Ok((len, Some(utf8_lossy(slice_subrange(buf, 1, len + 1)))))
    }
}

/// Decodes the question at the start of `buf`: the name's labels up to the
/// zero terminator, then the 16-bit type and class codes. Succeeds exactly
/// when `question_err(buf@)` is `None`, and then returns a question that
/// `question_matches(buf@, _)` pins down; otherwise returns exactly that
/// error.
pub fn parse_question(buf: &[u8]) -> (r: Result<Question, DecodeError>)
    ensures
        match question_err(buf@) {
            Some(e) => r == Err::<Question, DecodeError>(e),
            None => r matches Ok(q) && question_matches(buf@, q),
        },
{
    let mut v: Vec<String> = Vec::new();
    let ghost mut labs: Seq<Seq<u8>> = Seq::empty();
    let mut off: usize = 0;
    proof {
        assert(prepend_labels(labs, name_at(buf@, 0)) == name_at(buf@, 0)) by {
            match name_at(buf@, 0) {
                None => {},
                Some((rest, j)) => {
                    assert(labs + rest =~= rest);
                },
            }
        }
    }
    loop
        invariant_except_break
            off <= buf@.len(),
            v@.len() == labs.len(),
            forall|k: int| 0 <= k < labs.len() ==> v@[k]@ == lossy_of(labs[k]),
            name_at(buf@, 0) == prepend_labels(labs, name_at(buf@, off as int)),
        ensures
            off < buf@.len(),
            buf@[off as int] == 0,
            v@.len() == labs.len(),
            forall|k: int| 0 <= k < labs.len() ==> v@[k]@ == lossy_of(labs[k]),
            name_at(buf@, 0) == Some((labs, off as int + 1)),
        decreases buf@.len() - off,
    {
        let tail = slice_subrange(buf, off, buf.len());
        match parse_question_part(tail) {
            Err(_) => {
                return Err(DecodeError::TruncatedQuestion);
            },
            Ok((n, maybe_s)) => {
                match maybe_s {
                    None => {
                        proof {
                            assert(buf@[off as int] == 0);
                            assert(name_at(buf@, off as int) == Some(
                                (Seq::<Seq<u8>>::empty(), off as int + 1),
                            ));
                            assert(labs + Seq::<Seq<u8>>::empty() =~= labs);
                        }
                        break;
                    },
                    Some(s_lab) => {
                        let ghost lab = buf@.subrange(off as int + 1, off as int + 1 + n as int);
                        proof {
                            assert(tail@.subrange(1, n as int + 1) =~= lab);
                            assert(name_at(buf@, off as int) == prepend_labels(
                                seq![lab],
                                name_at(buf@, off as int + 1 + n as int),
                            ));
                            match name_at(buf@, off as int + 1 + n as int) {
                                None => {},
                                Some((rest, j)) => {
                                    assert((labs + seq![lab]) + rest =~= labs + (seq![lab] + rest));
                                },
                            }
                        }
                        v.push(s_lab);
                        proof {
                            labs = labs + seq![lab];
                        }
                        off = off + n + 1;
                    },
                }
            },
        }
    }
    let blen = buf.len();
    let j = off + 1;
    if blen - j < 4 {
        return Err(DecodeError::TruncatedQuestion);
    }
    let t = parse_u16(slice_subrange(buf, j, j + 2));
    let qtype = match QType::from_u16(t) {
        Some(q) => q,
        None => {
            return Err(DecodeError::UnknownQueryType(t));
        },
    };
    let c = parse_u16(slice_subrange(buf, j + 2, j + 4));
    let qclass = match QClass::from_u16(c) {
        Some(c2) => c2,
        None => {
            return Err(DecodeError::UnknownQueryClass(c));
        },
    };
    Ok(Question { qname: v, qtype, qclass, len: j + 4 })
}

} // verus!
