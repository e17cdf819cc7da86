use vstd::prelude::*;
use vstd::string::StrSliceExecFns;

use crate::error::Error;

verus! {

/// Length of a video id.
pub const ID_LEN: usize = 11;

/// Chars that a video id is made of: `A-Z a-z 0-9 _ -`.
pub open spec fn is_id_char(c: char) -> bool {
    ('A' <= c && c <= 'Z') || ('a' <= c && c <= 'z') || ('0' <= c && c <= '9') || c == '_' || c
        == '-'
}

/// `s` holds `w` at position `k`.
pub open spec fn has_at(s: Seq<char>, k: int, w: Seq<char>) -> bool {
    0 <= k && k + w.len() <= s.len() && s.subrange(k, k + w.len()) == w
}

/// `s` holds a whole id at position `k`: eleven id chars, not followed by another.
pub open spec fn id_at(s: Seq<char>, k: int) -> bool {
    &&& 0 <= k
    &&& k + ID_LEN <= s.len()
    &&& forall|j: int| k <= j < k + ID_LEN ==> is_id_char(#[trigger] s[j])
    &&& (k + ID_LEN == s.len() || !is_id_char(s[k + ID_LEN]))
}

/// Position after the scheme, `http://` or `https://`, or -1.
pub open spec fn host_start(s: Seq<char>) -> int {
    if has_at(s, 0, "https://"@) {
        "https://"@.len() as int
    } else if has_at(s, 0, "http://"@) {
        "http://"@.len() as int
    } else {
        -1
    }
}

/// Position of the domain, after the scheme and an optional `www.`, or -1.
pub open spec fn domain_start(s: Seq<char>) -> int {
    let h = host_start(s);
    if h < 0 {
        -1
    } else if has_at(s, h, "www."@) {
        h + "www."@.len()
    } else {
        h
    }
}

/// Position where the id stands in the three accepted link shapes
/// (`youtu.be/<id>`, `youtube.com/watch?v=<id>`, `youtube.com/<id>`), or -1.
pub open spec fn id_start(s: Seq<char>) -> int {
    let d = domain_start(s);
    if d < 0 {
        -1
    } else if has_at(s, d, "youtu.be/"@) {
        d + "youtu.be/"@.len()
    } else if has_at(s, d, "youtube.com/watch?v="@) {
        d + "youtube.com/watch?v="@.len()
    } else if has_at(s, d, "youtube.com/"@) {
        d + "youtube.com/"@.len()
    } else {
        -1
    }
}

/// The id that a link carries, if it has one of the accepted shapes.
pub open spec fn link_id(s: Seq<char>) -> Option<Seq<char>> {
    let k = id_start(s);
    if k >= 0 && id_at(s, k) {
        Some(s.subrange(k, k + ID_LEN))
    } else {
        None
    }
}

fn is_id_char_exec(c: char) -> (r: bool)
    ensures
        r == is_id_char(c),
{
    ('A' <= c && c <= 'Z') || ('a' <= c && c <= 'z') || ('0' <= c && c <= '9') || c == '_' || c
        == '-'
}

/// Whether `s` holds `w` at char position `k`.
fn holds_at(s: &str, k: usize, w: &str) -> (r: bool)
    ensures
        r == has_at(s@, k as int, w@),
{
    let n = s.unicode_len();
    let m = w.unicode_len();
    if k > n || m > n - k {
        return false;
    }
    let mut j: usize = 0;
    while j < m
        invariant
            n == s@.len(),
            m == w@.len(),
            k + m <= n,
            j <= m,
            forall|t: int| 0 <= t < j ==> s@[k + t] == w@[t],
        decreases m - j,
    {
        if s.get_char(k + j) != w.get_char(j) {
            assert(s@.subrange(k as int, k + m)[j as int] != w@[j as int]);
            return false;
        }
        j = j + 1;
    }
    assert(s@.subrange(k as int, k + m) =~= w@);
    true
}

/// Position where the id would stand, as `id_start` describes.
fn find_id_start(s: &str) -> (r: Option<usize>)
    ensures
        match r {
            Some(k) => k as int == id_start(s@),
            None => id_start(s@) < 0,
        },
{
    let _n = s.unicode_len();
    let h: usize = if holds_at(s, 0, "https://") {
        "https://".unicode_len()
    } else if holds_at(s, 0, "http://") {
        "http://".unicode_len()
    } else {
        return None;
    };
    let d: usize = if holds_at(s, h, "www.") {
        h + "www.".unicode_len()
    } else {
        h
    };
    if holds_at(s, d, "youtu.be/") {
        Some(d + "youtu.be/".unicode_len())
    } else if holds_at(s, d, "youtube.com/watch?v=") {
        Some(d + "youtube.com/watch?v=".unicode_len())
    } else if holds_at(s, d, "youtube.com/") {
        Some(d + "youtube.com/".unicode_len())
    } else {
        None
    }
}

/// Takes the video id out of a link. A link is accepted when it starts with
/// `http://` or `https://`, an optional `www.`, then `youtu.be/`,
/// `youtube.com/watch?v=` or `youtube.com/`, followed by exactly eleven id
/// chars and then the end or a char that is not an id char.
pub fn extract_id(url: &str) -> (r: Result<String, Error>)
    ensures
        match link_id(url@) {
            Some(id) => r matches Ok(v) && v@ == id,
            None => r matches Err(Error::InvalidSource(u)) && u@ == url@,
        },
{
    let n = url.unicode_len();
    match find_id_start(url) {
        Some(k) => {
            if k <= n && ID_LEN <= n - k {
                let mut j: usize = 0;
                while j < ID_LEN
                    invariant
                        n == url@.len(),
                        k as int == id_start(url@),
                        k + ID_LEN <= n,
                        j <= ID_LEN,
                        forall|t: int| k <= t < k + j ==> is_id_char(#[trigger] url@[t]),
                    decreases ID_LEN - j,
                {
                    if !is_id_char_exec(url.get_char(k + j)) {
                        assert(!is_id_char(url@[k + j]));
                        return Err(Error::InvalidSource(url.to_owned()));
                    }
                    j = j + 1;
                }
                if k + ID_LEN == n || !is_id_char_exec(url.get_char(k + ID_LEN)) {
                    return Ok(url.substring_char(k, k + ID_LEN).to_owned());
                }
            }
            Err(Error::InvalidSource(url.to_owned()))
        },
        None => Err(Error::InvalidSource(url.to_owned())),
    }
}

} // verus!

verus! {

/// The scheme part of an accepted link.
pub open spec fn scheme(secure: bool) -> Seq<char> {
    if secure {
        "https://"@
    } else {
        "http://"@
    }
}

/// The optional `www.` part of an accepted link.
pub open spec fn www_part(www: bool) -> Seq<char> {
    if www {
        "www."@
    } else {
        Seq::empty()
    }
}

/// The domain and path that lead to the id: short form, query form, path form.
pub open spec fn path_part(form: int) -> Seq<char> {
    if form == 0 {
        "youtu.be/"@
    } else if form == 1 {
        "youtube.com/watch?v="@
    } else {
        "youtube.com/"@
    }
}

/// Every link of an accepted shape gives exactly the eleven-char id that it
/// carries, whatever follows the id after a char that cannot be part of it.
pub proof fn lemma_link_shape(
    secure: bool,
    www: bool,
    form: int,
    id: Seq<char>,
    tail: Seq<char>,
)
    requires
        0 <= form < 3,
        id.len() == ID_LEN,
        forall|j: int| 0 <= j < id.len() ==> is_id_char(#[trigger] id[j]),
        tail.len() == 0 || !is_id_char(tail[0]),
    ensures
        link_id(scheme(secure) + www_part(www) + path_part(form) + id + tail) == Some(id),
{
    reveal_strlit("https://");
    reveal_strlit("http://");
    reveal_strlit("www.");
    reveal_strlit("youtu.be/");
    reveal_strlit("youtube.com/watch?v=");
    reveal_strlit("youtube.com/");
    let a = scheme(secure);
    let b = www_part(www);
    let c = path_part(form);
    let s = a + b + c + id + tail;
    let h = a.len() as int;
    let d = h + b.len();
    let k = d + c.len();
    assert(s.subrange(0, h) =~= a);
    if secure {
        assert(has_at(s, 0, "https://"@));
    } else {
        assert(s[4] == ':');
        assert(!has_at(s, 0, "https://"@)) by {
            assert(s.subrange(0, 8)[4] != "https://"@[4]);
        }
        assert(has_at(s, 0, "http://"@));
    }
    assert(host_start(s) == h);
    assert(s.subrange(h, d) =~= b);
    if www {
        assert(has_at(s, h, "www."@));
    } else {
        assert(s[h] == 'y');
        assert(!has_at(s, h, "www."@)) by {
            assert(s.subrange(h, h + 4)[0] != "www."@[0]);
        }
    }
    assert(domain_start(s) == d);
    assert(s.subrange(d, k) =~= c);
    if form == 0 {
        assert(has_at(s, d, "youtu.be/"@));
    } else {
        assert(s[d + 5] == 'b');
        assert(!has_at(s, d, "youtu.be/"@)) by {
            assert(s.subrange(d, d + 9)[5] != "youtu.be/"@[5]);
        }
        if form == 1 {
            assert(has_at(s, d, "youtube.com/watch?v="@));
        } else {
            assert(is_id_char(s[d + 17]));
            assert(!has_at(s, d, "youtube.com/watch?v="@)) by {
                if d + 20 <= s.len() {
                    assert(s.subrange(d, d + 20)[17] != "youtube.com/watch?v="@[17]);
                }
            }
            assert(has_at(s, d, "youtube.com/"@));
        }
    }
    assert(id_start(s) == k);
    assert(s.subrange(k, k + ID_LEN) =~= id);
    assert forall|j: int| k <= j < k + ID_LEN implies is_id_char(#[trigger] s[j]) by {
        assert(s[j] == id[j - k]);
    }
    if tail.len() > 0 {
        assert(s[k + ID_LEN] == tail[0]);
    }
    assert(id_at(s, k));
}

} // verus!
