//! The toolchain inspector's parsing: the compiler's self-reported version
//! line becomes a version and a release channel.

use vstd::prelude::*;

use crate::channel::Channel;
use crate::text::digit_char;
use crate::text::lemma_lead_run_is;
use crate::text::lemma_token_run_is;
use crate::text::lead_run;
use crate::text::str_chars;
use crate::text::token_char;
use crate::text::token_run;
use crate::version::parse_triple_chars;
use crate::version::spec_parse_triple;
use crate::version::ParseError;
use crate::version::Version;

verus! {

/// What the toolchain reported of itself.
#[derive(Clone, Copy, Debug, PartialEq, Eq, Structural)]
pub struct ToolchainReport {
    pub version: Version,
    pub channel: Channel,
}

/// The release-track token at the head of the text: its longest prefix of
/// letters, digits and underscores.
pub open spec fn spec_token_prefix(s: Seq<char>) -> Seq<char> {
    s.take(token_run(s) as int)
}

/// The channel the text names right after the version triple: a '-' starts
/// a track token; anything else, or the end of the text, means a stable
/// release.
pub open spec fn spec_channel_after(s: Seq<char>, end: int) -> Channel {
    if 0 <= end && end < s.len() && s[end] == '-' {
        Channel::spec_of_token(Some(spec_token_prefix(s.skip(end + 1))))
    } else {
        Channel::Stable
    }
}

/// The reading of a whole version line: skip the digit-free prelude (the
/// compiler names itself before its version), read the triple, then the
/// track token behind it.
pub open spec fn spec_report(s: Seq<char>) -> Option<(nat, nat, nat, Channel)> {
    let body = s.skip(lead_run(s) as int);
    match spec_parse_triple(body) {
        None => None,
        Some(t) => Some((t.0, t.1, t.2, spec_channel_after(body, t.3 as int))),
    }
}

/// The parsed components all fit in the machine word.
pub open spec fn spec_report_fits(t: (nat, nat, nat, Channel)) -> bool {
    t.0 <= usize::MAX && t.1 <= usize::MAX && t.2 <= usize::MAX
}

fn is_digit_char(c: char) -> (r: bool)
    ensures
        r == digit_char(c),
{
    let u = c as u32;
    48 <= u && u <= 57
}

fn is_token_char(c: char) -> (r: bool)
    ensures
        r == token_char(c),
{
    let u = c as u32;
    (97 <= u && u <= 122) || (65 <= u && u <= 90) || (48 <= u && u <= 57) || u == 95
}

/// Parse the version line a toolchain reports of itself into a version and
/// a release channel.  Fails exactly when no well-formed, machine-word-sized
/// version triple follows the leading digit-free prelude.
pub fn inspect_version_output(s: &str) -> (r: Result<ToolchainReport, ParseError>)
    ensures
        ({
            let p = spec_report(s@);
            match (r, p) {
                (Ok(rep), Some(t)) => spec_report_fits(t) && rep.version.major == t.0
                    && rep.version.minor == t.1 && rep.version.patch == t.2 && rep.channel == t.3,
                (Ok(_), None) => false,
                (Err(_), Some(t)) => !spec_report_fits(t),
                (Err(_), None) => true,
            }
        }),
{
    let chars = str_chars(s);
    let mut lead: usize = 0;
    while lead < chars.len() && !is_digit_char(chars[lead])
        invariant
            lead <= chars.len(),
            chars@ == s@,
            forall|k: int| 0 <= k < lead ==> !digit_char(chars@[k]),
        decreases chars.len() - lead,
    {
        lead += 1;
    }
    proof {
        lemma_lead_run_is(chars@, lead as int);
    }
    let ghost body = chars@.skip(lead as int);
    let parsed = parse_triple_chars(&chars, lead);
    if parsed.is_none() {
        return Err(ParseError);
    }
    let (version, end) = parsed.unwrap();
    let channel = if end < chars.len() && chars[end] == '-' {
        proof {
            assert(body[end - lead] == chars@[end as int]);
        }
        let mut j: usize = end + 1;
        while j < chars.len() && is_token_char(chars[j])
            invariant
                end + 1 <= j <= chars.len(),
                chars@ == s@,
                forall|k: int| end + 1 <= k < j ==> token_char(chars@[k]),
            decreases chars.len() - j,
        {
            j += 1;
        }
        let ghost after = chars@.skip(end as int + 1);
        proof {
            assert(forall|k: int| 0 <= k < j - end - 1 ==> token_char(after[k]));
            assert(j < chars.len() ==> after[j - end - 1] == chars@[j as int]);
            lemma_token_run_is(after, j - end - 1);
        }
        let tok = s.substring_char(end + 1, j);
        proof {
            assert(tok@ =~= spec_token_prefix(after));
            assert(body.skip(end - lead + 1) =~= after);
        }
        Channel::parse(Some(tok))
    } else {
        proof {
            assert(end < chars.len() ==> body[end - lead] == chars@[end as int]);
        }
        Channel::parse(None)
    };
    Ok(ToolchainReport { version, channel })
}

} // verus!
