use vstd::prelude::*;
use crate::codepoint::{is_ident_after_start_code, is_ident_start_code, CodePoint, CodePointInterface};
use crate::comment::push_displayed;
use crate::delimiter::{codes_of, displayed_codes};
use crate::input::{InputStream, ScanFilter};
use crate::keyword::{keyword_of, Keyword};
use crate::location::Location;

verus! {

#[derive(Debug, Clone, Copy, PartialEq, Eq)]
pub enum IdentifierParseError {
    /// The identifier read is a reserved word.
    IsKeyword { found: Keyword },
}

#[derive(Debug, Clone, PartialEq, Eq)]
pub struct IdentifierOutput {
    pub identifier: String,
    pub location: Location,
}

pub open spec fn continues_ident<U: CodePointInterface>(c: CodePoint<U>) -> bool {
    c.unit_code() is Some && is_ident_after_start_code(c.unit_code()->0)
}

/// Where a run of ident-after-start code points that begins at `i` ends.
pub open spec fn ident_end<U: CodePointInterface>(u: Seq<CodePoint<U>>, i: int) -> int
    decreases u.len() - i,
{
    if 0 <= i < u.len() && continues_ident(u[i]) {
        ident_end(u, i + 1)
    } else {
        i
    }
}

proof fn lemma_ident_end_bounds<U: CodePointInterface>(u: Seq<CodePoint<U>>, i: int)
    requires
        0 <= i <= u.len(),
    ensures
        i <= ident_end(u, i) <= u.len(),
    decreases u.len() - i,
{
    if i < u.len() && continues_ident(u[i]) {
        lemma_ident_end_bounds(u, i + 1);
    }
}

/// Reads an identifier that starts at `location`: one ident-start code point,
/// then every ident-after-start code point that follows. A name that spells
/// a keyword is reported as that keyword.
pub fn consume_ident_sequence<U: CodePointInterface, F: ScanFilter<U>>(
    stream: &mut InputStream<U, F>,
    location: Location,
) -> (r: Result<IdentifierOutput, IdentifierParseError>)
    requires
        old(stream).wf(),
        old(stream).upcoming().len() > 0,
        old(stream).upcoming()[0].unit_code() is Some,
        is_ident_start_code(old(stream).upcoming()[0].unit_code()->0),
    ensures
        final(stream).wf(),
        final(stream).filter() == old(stream).filter(),
        ({
            let u = old(stream).upcoming();
            let e = ident_end(u, 1);
            &&& final(stream).upcoming() == u.skip(e)
            &&& match r {
                Ok(out) => {
                    &&& codes_of(out.identifier@) == displayed_codes(u.take(e))
                    &&& keyword_of(out.identifier@) is None
                    &&& out.location == location
                },
                Err(IdentifierParseError::IsKeyword { found }) => exists|t: Seq<char>|
                    codes_of(t) == displayed_codes(u.take(e)) && keyword_of(t) == Some(found),
            }
        }),
{
    let ghost u = stream.upcoming();
    proof {
        crate::input::lemma_upcoming_fits(*stream);
        lemma_ident_end_bounds(u, 1);
    }
    let mut identifier = String::new();
    let first = match stream.consume_next() {
        Ok(c) => c,
        Err(_) => CodePoint::EOF,
    };
    proof {
        assert(u.take(1).drop_last() =~= Seq::<CodePoint<U>>::empty());
        assert(codes_of(identifier@) =~= Seq::<u32>::empty());
    }
    push_displayed(&mut identifier, first);
    proof {
        assert(first == u[0]);
        assert(u.take(1).last() == u[0]);
        assert(displayed_codes(Seq::<CodePoint<U>>::empty()) =~= Seq::<u32>::empty());
        assert(displayed_codes(u.take(1)) =~= seq![u[0].unit_code()->0]);
        assert(codes_of(identifier@) =~= seq![u[0].unit_code()->0]);
    }
    let mut i: usize = 1;
    loop
        invariant
            stream.wf(),
            stream.filter() == old(stream).filter(),
            u == old(stream).upcoming(),
            u.len() <= usize::MAX,
            1 <= i <= ident_end(u, 1),
            ident_end(u, 1) <= u.len(),
            ident_end(u, i as int) == ident_end(u, 1),
            stream.upcoming() == u.skip(i as int),
            codes_of(identifier@) == displayed_codes(u.take(i as int)),
        ensures
            i == ident_end(u, 1),
        decreases u.len() - i,
    {
        let next = match stream.peek_next() {
            Ok(c) => c,
            Err(_) => CodePoint::EOF,
        };
        proof {
            if i < u.len() {
                assert(u.skip(i as int)[0] == u[i as int]);
            }
        }
        if !next.is_ident_after_start() {
            break;
        }
        proof {
            assert(u.skip(i as int).drop_first() =~= u.skip(i + 1));
            assert(u.take(i + 1).drop_last() =~= u.take(i as int));
            assert(u.take(i + 1).last() == u[i as int]);
            lemma_ident_end_bounds(u, i + 1);
        }
        let c = match stream.consume_next() {
            Ok(c) => c,
            Err(_) => CodePoint::EOF,
        };
        push_displayed(&mut identifier, c);
        i = i + 1;
    }
    match Keyword::from_str(identifier.as_str()) {
        Ok(keyword) => Err(IdentifierParseError::IsKeyword { found: keyword }),
        Err(_) => Ok(IdentifierOutput { identifier, location }),
    }
}

} // verus!
