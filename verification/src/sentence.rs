//! The sentence front end: strip the checksum suffix (validated upstream),
//! read the talker and sentence-type codes out of the prefix, and dispatch
//! to the handler of that sentence kind. Only the RMC handler lives in this
//! crate; any other type code is refused as unsupported.

use vstd::prelude::*;
use crate::errors::{ErrorView, FieldName, ParseError, ParseErrorKind};
use crate::rmc::{NavigationSystem, ParsedMessage, handle, handle_post, spec_rmc};
use crate::scan::{find_char, find_from};

verus! {

/// The sentence up to (not including) its checksum delimiter `*`; the whole
/// sentence when there is none.
pub open spec fn checksum_stripped(s: Seq<char>) -> Seq<char> {
    s.subrange(0, find_char(s, '*') as int)
}

/// The navigation system a talker code names.
pub open spec fn spec_nav_system(c1: char, c2: char) -> NavigationSystem {
    if c1 == 'G' && c2 == 'N' {
        NavigationSystem::Combination
    } else if c1 == 'G' && c2 == 'P' {
        NavigationSystem::Gps
    } else if c1 == 'G' && c2 == 'L' {
        NavigationSystem::Glonass
    } else if c1 == 'G' && c2 == 'A' {
        NavigationSystem::Galileo
    } else if (c1 == 'G' && c2 == 'B') || (c1 == 'B' && c2 == 'D') {
        NavigationSystem::Beidou
    } else if c1 == 'G' && c2 == 'I' {
        NavigationSystem::Navic
    } else if c1 == 'Q' && c2 == 'Z' {
        NavigationSystem::Qzss
    } else {
        NavigationSystem::Other
    }
}

/// The stripped sentence carries a recognized prefix: `$`, a two-letter
/// talker code, and the type code `RMC`.
pub open spec fn recognized_rmc(body: Seq<char>) -> bool {
    body.len() >= 6 && body[0] == '$' && body.subrange(3, 6) == seq!['R', 'M', 'C']
}

/// The outcome of decoding one full sentence: the RMC handler's outcome on
/// the checksum-stripped text, or the unsupported-sentence failure.
pub open spec fn spec_parse_sentence(s: Seq<char>) -> Result<crate::rmc::RmcView, ErrorView> {
    let body = checksum_stripped(s);
    if recognized_rmc(body) {
        spec_rmc(body, spec_nav_system(body[1], body[2]))
    } else {
        Err(
            ErrorView {
                kind: ParseErrorKind::UnsupportedSentence,
                field: FieldName::SentenceType,
                value: body,
            },
        )
    }
}

/// The navigation system of a talker code, executable.
fn nav_system_of(c1: char, c2: char) -> (nav: NavigationSystem)
    ensures
        nav == spec_nav_system(c1, c2),
{
    if c1 == 'G' && c2 == 'N' {
        NavigationSystem::Combination
    } else if c1 == 'G' && c2 == 'P' {
        NavigationSystem::Gps
    } else if c1 == 'G' && c2 == 'L' {
        NavigationSystem::Glonass
    } else if c1 == 'G' && c2 == 'A' {
        NavigationSystem::Galileo
    } else if (c1 == 'G' && c2 == 'B') || (c1 == 'B' && c2 == 'D') {
        NavigationSystem::Beidou
    } else if c1 == 'G' && c2 == 'I' {
        NavigationSystem::Navic
    } else if c1 == 'Q' && c2 == 'Z' {
        NavigationSystem::Qzss
    } else {
        NavigationSystem::Other
    }
}

/// Decode one sentence, checksum suffix tolerated (its validation belongs
/// upstream): strip it, recognize the RMC type code, and run the handler.
pub fn parse_sentence(sentence: &str) -> (r: Result<ParsedMessage, ParseError>)
    ensures
        match r {
            Ok(m) => spec_parse_sentence(sentence@) matches Ok(rv) && handle_post(
                checksum_stripped(sentence@),
                spec_nav_system(checksum_stripped(sentence@)[1], checksum_stripped(sentence@)[2]),
                r,
            ) && rv.wf(),
            Err(e) => spec_parse_sentence(sentence@) matches Err(ev) && e@ == ev,
        },
{
    let star = find_from(sentence, 0, '*');
    let body = sentence.substring_char(0, star);
    proof {
        assert(sentence@.subrange(0, sentence@.len() as int) =~= sentence@);
        assert(body@ == checksum_stripped(sentence@));
    }
    let n = body.unicode_len();
    if n < 6 {
        proof {
            assert(!recognized_rmc(body@));
        }
        return Err(
            ParseError::new(ParseErrorKind::UnsupportedSentence, FieldName::SentenceType, body),
        );
    }
    let c0 = body.get_char(0);
    let c3 = body.get_char(3);
    let c4 = body.get_char(4);
    let c5 = body.get_char(5);
    proof {
        assert(body@.subrange(3, 6) =~= seq![body@[3], body@[4], body@[5]]);
    }
    if !(c0 == '$' && c3 == 'R' && c4 == 'M' && c5 == 'C') {
        proof {
            assert(body@.subrange(3, 6) == seq!['R', 'M', 'C'] ==> (body@[3] == 'R' && body@[4]
                == 'M' && body@[5] == 'C'));
        }
        return Err(
            ParseError::new(ParseErrorKind::UnsupportedSentence, FieldName::SentenceType, body),
        );
    }
    let nav = nav_system_of(body.get_char(1), body.get_char(2));
    handle(body, nav)
}

} // verus!
