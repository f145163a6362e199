//! The filesystem import's decision: which remote CSV objects to import
//! this pass, given the locally persisted set of already-synced keys and
//! the per-kind cap, and the file name a staged object takes.

use vstd::prelude::*;
use vstd::string::*;
use crate::text::{find_idx, lemma_find_idx, str_eq};

verus! {

broadcast use lemma_find_idx;

/// True when `k` occurs among `keys`.
pub open spec fn key_in(keys: Seq<Seq<char>>, k: Seq<char>) -> bool {
    exists|i: int| 0 <= i < keys.len() && #[trigger] keys[i] == k
}

/// The keys of `remote` that are not yet synced, in order.
pub open spec fn spec_unsynced(remote: Seq<Seq<char>>, synced: Seq<Seq<char>>) -> Seq<Seq<char>>
    decreases remote.len(),
{
    if remote.len() == 0 {
        Seq::empty()
    } else {
        spec_unsynced(remote.drop_last(), synced) + (if key_in(synced, remote.last()) {
            Seq::<Seq<char>>::empty()
        } else {
            seq![remote.last()]
        })
    }
}

/// How many remote keys one pass walks: all of them, or the cap.
pub open spec fn spec_sync_window(remote_len: int, limit: Option<u32>) -> int {
    match limit {
        Some(l) => if l < remote_len {
            l as int
        } else {
            remote_len
        },
        None => remote_len,
    }
}

/// The keys one pass imports: among the first keys inside the window, in
/// catalog order, exactly those not yet synced.
pub open spec fn spec_keys_to_sync(
    remote: Seq<Seq<char>>,
    synced: Seq<Seq<char>>,
    limit: Option<u32>,
) -> Seq<Seq<char>> {
    spec_unsynced(remote.take(spec_sync_window(remote.len() as int, limit)), synced)
}

/// Membership test against the synced set.
fn key_in_exec(keys: &Vec<String>, k: &str) -> (r: bool)
    ensures
        r == key_in(keys.deep_view(), k@),
{
    let n = keys.len();
    let mut i: usize = 0;
    while i < n
        invariant
            i <= n == keys@.len(),
            forall|j: int| 0 <= j < i ==> keys.deep_view()[j] != k@,
        decreases n - i,
    {
        if str_eq(keys[i].as_str(), k) {
            proof {
                assert(keys.deep_view()[i as int] == k@);
            }
            return true;
        }
        i = i + 1;
    }
    proof {
        assert(!key_in(keys.deep_view(), k@));
    }
    false
}

/// Selects the keys to import this pass.
pub fn keys_to_sync(remote: &Vec<String>, synced: &Vec<String>, limit: Option<u32>) -> (r: Vec<
    String,
>)
    ensures
        r.deep_view() == spec_keys_to_sync(remote.deep_view(), synced.deep_view(), limit),
{
    let n = remote.len();
    let window: usize = match limit {
        Some(l) => {
            if (l as usize) < n {
                l as usize
            } else {
                n
            }
        },
        None => n,
    };
    proof {
        assert(window == spec_sync_window(remote.deep_view().len() as int, limit));
    }
    let mut r: Vec<String> = Vec::new();
    let mut i: usize = 0;
    proof {
        assert(r.deep_view() =~= spec_unsynced(
            remote.deep_view().take(window as int).take(0),
            synced.deep_view(),
        ));
    }
    while i < window
        invariant
            i <= window <= n == remote@.len(),
            r.deep_view() == spec_unsynced(
                remote.deep_view().take(window as int).take(i as int),
                synced.deep_view(),
            ),
        decreases window - i,
    {
        let ghost win = remote.deep_view().take(window as int);
        let ghost pre = win.take(i as int);
        let ghost post = win.take(i as int + 1);
        proof {
            assert(post.drop_last() =~= pre);
            assert(post.last() == remote.deep_view()[i as int]);
        }
        if !key_in_exec(synced, remote[i].as_str()) {
            r.push(remote[i].clone());
            proof {
                assert(r.deep_view() =~= spec_unsynced(post, synced.deep_view()));
            }
        } else {
            proof {
                assert(r.deep_view() =~= spec_unsynced(post, synced.deep_view()));
            }
        }
        i = i + 1;
    }
    proof {
        assert(remote.deep_view().take(window as int).take(window as int) =~= remote.deep_view()
            .take(window as int));
    }
    r
}

/// The staged file's name: what follows the last slash of the remote key.
pub open spec fn spec_file_name(path: Seq<char>) -> Seq<char>
    decreases path.len(),
{
    let slash = find_idx(path, '/');
    if slash == path.len() {
        path
    } else {
        spec_file_name(path.subrange(slash + 1, path.len() as int))
    }
}

/// Takes the file name off a remote key's path.
pub fn file_name_from_path(path: &str) -> (r: String)
    ensures
        r@ == spec_file_name(path@),
{
    let cs = crate::text::chars_of(path);
    let n = cs.len();
    let mut start: usize = 0;
    proof {
        assert(path@.subrange(0, n as int) =~= path@);
    }
    loop
        invariant
            start <= n == path@.len(),
            cs@ == path@,
            spec_file_name(path@) == spec_file_name(path@.subrange(start as int, n as int)),
        decreases n - start,
    {
        let ghost tail = path@.subrange(start as int, n as int);
        let e = crate::text::find_char_from(&cs, '/', start);
        proof {
            crate::text::lemma_find_idx_from(path@, '/', start as int, e as int);
        }
        if e == n {
            let r = path.substring_char(start, n).to_owned();
            proof {
                assert(r@ =~= tail);
                assert(spec_file_name(tail) == tail);
            }
            return r;
        }
        proof {
            assert(tail.subrange(e - start + 1, tail.len() as int) =~= path@.subrange(
                e + 1,
                n as int,
            ));
        }
        start = e + 1;
    }
}

} // verus!
