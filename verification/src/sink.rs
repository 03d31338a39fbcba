//! Sink-side helpers: the newline-delimited framing of the object-store
//! body, and the all-or-nothing combination of the two sink outcomes.

use vstd::prelude::*;
use vstd::string::StringExecFns;

verus! {

/// The newline-delimited concatenation of a batch of serialized lines: each
/// line followed by exactly one newline (not a delimited array).
pub open spec fn spec_ndjson(lines: Seq<String>) -> Seq<char>
    decreases lines.len(),
{
    if lines.len() == 0 {
        Seq::empty()
    } else {
        spec_ndjson(lines.drop_last()) + lines.last()@ + "\n"@
    }
}

/// Joins serialized metric lines into one newline-delimited body, one line
/// per metric.
pub fn ndjson_join(lines: &Vec<String>) -> (s: String)
    ensures
        s@ == spec_ndjson(lines@),
{
    let mut s = String::new();
    let n = lines.len();
    let mut i: usize = 0;
    while i < n
        invariant
            n == lines@.len(),
            i <= n,
            s@ == spec_ndjson(lines@.take(i as int)),
        decreases n - i,
    {
        s.append(lines[i].as_str());
        s.append("\n");
        proof {
            assert(lines@.take(i + 1).drop_last() =~= lines@.take(i as int));
            assert(s@ =~= spec_ndjson(lines@.take(i + 1)));
        }
        i = i + 1;
    }
    proof {
        assert(lines@.take(n as int) =~= lines@);
    }
    s
}

/// Combines the two concurrent sink outcomes into the batch outcome: the
/// batch succeeds exactly when both sinks succeeded, and neither sink's
/// failure is swallowed — a relational-store error is reported first, an
/// object-store error otherwise.
pub fn combine_sink_results(db_result: Result<(), String>, s3_result: Result<(), String>) -> (r:
    Result<(), String>)
    ensures
        r is Ok <==> (db_result is Ok && s3_result is Ok),
        db_result matches Err(e) ==> r == Result::<(), String>::Err(e),
        db_result is Ok ==> r == s3_result,
{
    match db_result {
        Result::Err(e) => Result::Err(e),
        Result::Ok(()) => s3_result,
    }
}

} // verus!
