//! The client's decisions: what to do with a payload received from the
//! server, and where to write received files and images. The surrounding
//! process prints, reads and writes; this module only computes.

use vstd::prelude::*;

use crate::err::RuntimeError;
use crate::message::{Message, MsgView};
use crate::text::{spec_decimal, u64_to_string};

verus! {

/// The path with its trailing separators removed.
pub open spec fn strip_trailing_slashes(p: Seq<char>) -> Seq<char>
    decreases p.len(),
{
    if p.len() > 0 && p.last() == '/' {
        strip_trailing_slashes(p.drop_last())
    } else {
        p
    }
}

/// The suffix after the last separator; the whole sequence when none.
pub open spec fn after_last_slash(q: Seq<char>) -> Seq<char>
    decreases q.len(),
{
    if q.len() == 0 || q.last() == '/' {
        Seq::empty()
    } else {
        after_last_slash(q.drop_last()).push(q.last())
    }
}

/// The file name a path ends in: its last component, after dropping
/// trailing separators; nothing when the path has no usable name (empty,
/// a root, or ending in a dot component).
pub open spec fn spec_basename(p: Seq<char>) -> Option<Seq<char>> {
    let name = after_last_slash(strip_trailing_slashes(p));
    if name.len() == 0 || name == "."@ || name == ".."@ {
        None
    } else {
        Some(name)
    }
}

fn strip_end(s: &str) -> (end: usize)
    ensures
        end <= s@.len(),
        s@.take(end as int) == strip_trailing_slashes(s@),
        end > 0 ==> s@[end as int - 1] != '/',
{
    let n = s.unicode_len();
    let mut end = n;
    proof {
        assert(s@.take(n as int) =~= s@);
    }
    while end > 0
        invariant
            end <= n,
            n == s@.len(),
            strip_trailing_slashes(s@) == strip_trailing_slashes(s@.take(end as int)),
        decreases end,
    {
        proof {
            assert(s@.take(end as int).last() == s@[end as int - 1]);
            assert(s@.take(end as int).drop_last() =~= s@.take(end as int - 1));
        }
        if s.get_char(end - 1) != '/' {
            return end;
        }
        end -= 1;
    }
    proof {
        assert(s@.take(0) =~= Seq::<char>::empty());
    }
    0
}

fn find_name_start(s: &str, end: usize) -> (start: usize)
    requires
        end <= s@.len(),
    ensures
        start <= end,
        forall|j: int| start <= j < end ==> s@[j] != '/',
        start > 0 ==> s@[start as int - 1] == '/',
{
    let mut start = end;
    while start > 0
        invariant
            start <= end <= s@.len(),
            forall|j: int| start <= j < end ==> s@[j] != '/',
        decreases start,
    {
        if s.get_char(start - 1) == '/' {
            return start;
        }
        start -= 1;
    }
    0
}

proof fn lemma_after_last_slash_segment(q: Seq<char>, start: int, end: int)
    requires
        0 <= start <= end <= q.len(),
        forall|j: int| start <= j < end ==> q[j] != '/',
        start > 0 ==> q[start - 1] == '/',
    ensures
        after_last_slash(q.take(end)) == q.subrange(start, end),
    decreases end - start,
{
    let t = q.take(end);
    if end == start {
        if end == 0 {
            assert(t.len() == 0);
        } else {
            assert(t.last() == q[end - 1]);
            assert(q[end - 1] == '/');
        }
        assert(after_last_slash(t) =~= q.subrange(start, end));
    } else {
        assert(t.last() == q[end - 1]);
        assert(q[end - 1] != '/');
        assert(t.drop_last() =~= q.take(end - 1));
        lemma_after_last_slash_segment(q, start, end - 1);
        assert(after_last_slash(t) =~= q.subrange(start, end - 1).push(q[end - 1]));
        assert(q.subrange(start, end - 1).push(q[end - 1]) =~= q.subrange(start, end));
    }
}

/// The file name a received path ends in, or the exact complaint when the
/// path holds none.
pub fn get_file_name_from_path<'a>(path_str: &'a str) -> (r: Result<&'a str, RuntimeError>)
    ensures
        r matches Ok(n) ==> spec_basename(path_str@) == Some(n@),
        r matches Err(e) ==> spec_basename(path_str@) is None && e@ == "Invalid path received: "@
            + path_str@,
    {
        let end = strip_end(path_str);
        let start = find_name_start(path_str, end);
        proof {
            lemma_after_last_slash_segment(path_str@, start as int, end as int);
            assert(path_str@.take(end as int) == strip_trailing_slashes(path_str@));
            reveal_strlit(".");
            reveal_strlit("..");
        }
        let name = path_str.substring_char(start, end);
        proof {
            assert(name@ =~= path_str@.subrange(start as int, end as int));
        }
        let dot = String::from_str(".");
        let dotdot = String::from_str("..");
        let owned = String::from_str(name);
        if start == end || owned.eq(&dot) || owned.eq(&dotdot) {
            let mut m = String::from_str("Invalid path received: ");
            m.append(path_str);
            Err(RuntimeError::from_string(m))
        } else {
            Ok(name)
        }
    }

/// What the client does with one payload received from the server.
pub enum ClientAction {
    /// Chat text: print it.
    Print(String),
    /// A file or image: write these bytes at this relative path.
    WriteFile(String, Vec<u8>),
}

/// Decide a received payload: text is printed; a file is written under
/// `files/` by its base name; an image is written under `images/` named by
/// the given timestamp; every control payload is refused with the exact
/// complaint.
pub fn client_action(message: Message, now_millis: u64) -> (r: Result<ClientAction, RuntimeError>)
    ensures
        message@ matches MsgView::Text(t) ==> (r matches Ok(a) && (a matches ClientAction::Print(s)
            && s@ == t)),
        message@ matches MsgView::File(n, b) ==> match spec_basename(n) {
            Some(base) => r matches Ok(a) && (a matches ClientAction::WriteFile(p, d) && p@
                == "files/"@ + base && d@ == b),
            None => r matches Err(e) && e@ == "Invalid path received: "@ + n,
        },
        message@ matches MsgView::Image(b) ==> (r matches Ok(a) && (a
            matches ClientAction::WriteFile(p, d) && p@ == "images/"@ + spec_decimal(
            now_millis as nat,
        ) && d@ == b)),
        !message@.is_content() ==> (r matches Err(e) && e@ == "Unknown message type"@),
{
    match message {
        Message::Text(t) => Ok(ClientAction::Print(t)),
        Message::File(n, b) => {
            match get_file_name_from_path(n.as_str()) {
                Ok(base) => {
                    let mut p = String::from_str("files/");
                    p.append(base);
                    Ok(ClientAction::WriteFile(p, b))
                },
                Err(e) => Err(e),
            }
        },
        Message::Image(b) => {
            let mut p = String::from_str("images/");
            let stamp = u64_to_string(now_millis);
            p.append(stamp.as_str());
            Ok(ClientAction::WriteFile(p, b))
        },
        _ => Err(RuntimeError::from_str("Unknown message type")),
    }
}

} // verus!
