//! Newline normalization of rendered bytes.
//!
//! Backends that do not declare valid newlines have their output rewritten so
//! that every line break is a CR LF pair: a bare LF or a bare CR becomes
//! CR LF, and an existing CR LF pair is kept as it is.

use vstd::prelude::*;

verus! {

/// Carriage return.
pub const CR: u8 = 13;

/// Line feed.
pub const LF: u8 = 10;

/// The normal form of a byte sequence: every line break is a CR LF pair.
pub open spec fn normalized_newlines(s: Seq<u8>) -> Seq<u8>
    decreases s.len(),
{
    if s.len() == 0 {
        Seq::<u8>::empty()
    } else if s[0] == CR && s.len() >= 2 && s[1] == LF {
        seq![CR, LF] + normalized_newlines(s.skip(2))
    } else if s[0] == CR || s[0] == LF {
        seq![CR, LF] + normalized_newlines(s.skip(1))
    } else {
        seq![s[0]] + normalized_newlines(s.skip(1))
    }
}

/// Rewrites the line breaks of `data` into CR LF pairs.
pub fn fix_newlines(data: Vec<u8>) -> (r: Vec<u8>)
    ensures
        r@ == normalized_newlines(data@),
{
    let mut out: Vec<u8> = Vec::new();
    let mut i: usize = 0;
    proof {
        assert(data@.skip(0) =~= data@);
        assert(out@ + normalized_newlines(data@) =~= normalized_newlines(data@));
    }
    while i < data.len()
        invariant
            i <= data.len(),
            out@ + normalized_newlines(data@.skip(i as int)) == normalized_newlines(data@),
        decreases data.len() - i,
    {
        let b = data[i];
        let ghost rest = data@.skip(i as int);
        if b == CR && i + 1 < data.len() && data[i + 1] == LF {
            proof {
                assert(rest.skip(2) =~= data@.skip(i + 2));
                assert(normalized_newlines(rest) == seq![CR, LF] + normalized_newlines(
                    data@.skip(i + 2),
                ));
            }
            out.push(CR);
            out.push(LF);
            i = i + 2;
        } else if b == CR || b == LF {
            proof {
                assert(rest.skip(1) =~= data@.skip(i + 1));
                assert(normalized_newlines(rest) == seq![CR, LF] + normalized_newlines(
                    data@.skip(i + 1),
                ));
            }
            out.push(CR);
            out.push(LF);
            i = i + 1;
        } else {
            proof {
                assert(rest.skip(1) =~= data@.skip(i + 1));
                assert(normalized_newlines(rest) == seq![b] + normalized_newlines(
                    data@.skip(i + 1),
                ));
            }
            out.push(b);
            i = i + 1;
        }
        assert(out@ + normalized_newlines(data@.skip(i as int)) =~= normalized_newlines(data@));
    }
    proof {
        assert(data@.skip(data@.len() as int) =~= Seq::<u8>::empty());
        assert(out@ =~= normalized_newlines(data@));
    }
    out
}

} // verus!
