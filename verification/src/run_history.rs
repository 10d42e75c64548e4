//! Run identification for session logs: each run gets an identifier derived
//! from the agent's name and the wall-clock time it started.

use vstd::prelude::*;
use crate::text::{str_to_chars, chars_to_string, push_u64, dec_digits};

verus! {

/// Relies on std::time::SystemTime: the milliseconds since the epoch at the
/// moment of the call. Nothing is assumed of the value.
#[verifier::external_body]
fn now_millis() -> u64 {
    std::time::SystemTime::now()
        .duration_since(std::time::UNIX_EPOCH)
        .map(|d| d.as_millis() as u64)
        .unwrap_or(0)
}

/// The run identifier for an agent name and a start time.
pub open spec fn run_id_of(id: Seq<char>, millis: u64) -> Seq<char> {
    id + seq!['_'] + dec_digits(millis as nat)
}

/// An identifier for one run: the agent's name, an underscore, and the
/// start time in milliseconds.
pub fn create_run_id(id: &str) -> (r: String)
    ensures
        exists|m: u64| r@ == run_id_of(id@, m),
{
    let m = now_millis();
    let mut chars = str_to_chars(id);
    chars.push('_');
    push_u64(&mut chars, m);
    let r = chars_to_string(&chars);
    proof {
        assert(r@ =~= run_id_of(id@, m));
    }
    r
}

/// Where one run's log lives. Creating the directory and writing the file
/// are the surrounding session's business.
pub struct RunHistory {
    pub run_id: String,
    pub path: String,
}

impl RunHistory {
    /// The log location for a fresh run of the named agent.
    pub fn new(id: String) -> (r: Self)
        ensures
            exists|m: u64| r.run_id@ == run_id_of(id@, m),
            r.path@ == "runs/"@ + r.run_id@ + ".txt"@,
    {
        let run_id = create_run_id(id.as_str());
        let mut chars = str_to_chars("runs/");
        let mut id_chars = str_to_chars(run_id.as_str());
        let mut i: usize = 0;
        while i < id_chars.len()
            invariant
                i <= id_chars@.len(),
                chars@ == "runs/"@ + id_chars@.subrange(0, i as int),
                id_chars@ == run_id@,
        decreases id_chars@.len() - i,
        {
            chars.push(id_chars[i]);
            proof {
                assert(chars@ =~= "runs/"@ + id_chars@.subrange(0, i + 1));
            }
            i = i + 1;
        }
        proof {
            assert(chars@ =~= "runs/"@ + run_id@);
        }
        chars.push('.');
        chars.push('t');
        chars.push('x');
        chars.push('t');
        let path = chars_to_string(&chars);
        proof {
            reveal_strlit(".txt");
            assert(path@ =~= "runs/"@ + run_id@ + ".txt"@);
        }
        RunHistory { run_id, path }
    }
}

} // verus!
