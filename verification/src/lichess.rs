//! The public archive catalog: splitting its listing into file names and
//! capping how many are taken per pass.

use vstd::prelude::*;
use vstd::string::*;
use crate::text::{chars_of, find_char_from, find_idx, lemma_find_idx};

verus! {

broadcast use lemma_find_idx;

/// Handle of the public archive catalog; the listing itself is fetched
/// outside and handed in as text.
pub struct Lichess {}

impl Lichess {
    /// A catalog handle.
    pub fn new() -> (r: Self)
        ensures
            true,
    {
        Lichess {}
    }
}

/// The lines of a listing, split at newlines; a trailing fragment counts.
pub open spec fn spec_lines(s: Seq<char>) -> Seq<Seq<char>>
    decreases s.len(),
{
    let e = find_idx(s, '\n');
    if e == s.len() {
        seq![s]
    } else {
        seq![s.subrange(0, e)] + spec_lines(s.subrange(e + 1, s.len() as int))
    }
}

/// Splits a catalog listing into its lines.
pub fn files_from_list(text: &str) -> (r: Vec<String>)
    ensures
        r.deep_view() == spec_lines(text@),
{
    let cs = chars_of(text);
    let n = cs.len();
    let mut r: Vec<String> = Vec::new();
    let mut i: usize = 0;
    let ghost mut done: Seq<Seq<char>> = Seq::empty();
    proof {
        assert(text@.subrange(0, n as int) =~= text@);
        assert(done + spec_lines(text@) =~= spec_lines(text@));
    }
    loop
        invariant
            i <= n == text@.len(),
            cs@ == text@,
            r.deep_view() == done,
            spec_lines(text@) == done + spec_lines(text@.subrange(i as int, n as int)),
        decreases n + 1 - i,
    {
        let ghost tail = text@.subrange(i as int, n as int);
        let e = find_char_from(&cs, '\n', i);
        let line = text.substring_char(i, e).to_owned();
        proof {
            assert(line@ =~= tail.subrange(0, e - i));
        }
        if e == n {
            r.push(line);
            proof {
                assert(tail.subrange(0, e - i) =~= tail);
                assert(spec_lines(tail) == seq![tail]);
                assert(r.deep_view() =~= done.push(tail));
                assert(done + seq![tail] =~= done.push(tail));
            }
            return r;
        }
        r.push(line);
        proof {
            let ghost old_done = done;
            done = done.push(tail.subrange(0, e - i));
            assert(r.deep_view() =~= done);
            assert(tail.subrange(e - i + 1, tail.len() as int) =~= text@.subrange(
                e + 1,
                n as int,
            ));
            assert(spec_lines(tail) == seq![tail.subrange(0, e - i)] + spec_lines(
                text@.subrange(e + 1, n as int),
            ));
            assert((old_done + (seq![tail.subrange(0, e - i)] + spec_lines(
                text@.subrange(e + 1, n as int),
            ))) =~= (done + spec_lines(text@.subrange(e + 1, n as int))));
        }
        i = e + 1;
    }
}

/// Takes at most one file per pass from the catalog, the throttle of the
/// update checker.
pub fn enforce_lichess_download_limit(files: &Vec<String>) -> (r: Vec<String>)
    ensures
        files@.len() == 0 ==> r@.len() == 0,
        files@.len() > 0 ==> r@.len() == 1 && r@[0]@ == files@[0]@,
{
    let mut r: Vec<String> = Vec::new();
    if files.len() > 0 {
        r.push(files[0].clone());
    }
    r
}

} // verus!
