use vstd::prelude::*;

use crate::platform::utf8_chars;
use crate::strings::chars_equal;
use crate::text::{byte_views, chars_of, has_prefix, strip_prefix, strip_prefix_chars, string_from_chars};

verus! {

/// The characters after the last `/` of `p`.
pub open spec fn last_segment(p: Seq<char>) -> Seq<char>
    decreases p.len(),
{
    if p.len() == 0 || p.last() == '/' {
        seq![]
    } else {
        last_segment(p.drop_last()).push(p.last())
    }
}

/// The final component of a Unix path, as `Path::file_name` reads it: trailing
/// slashes and `.` components are skipped, and there is none when the path is
/// empty, the root, `.`, or ends in `..`.
pub open spec fn file_name(p: Seq<char>) -> Option<Seq<char>>
    decreases p.len(),
{
    if p.len() > 0 && p.last() == '/' {
        file_name(p.drop_last())
    } else {
        let seg = last_segment(p);
        if seg.len() == 0 {
            None
        } else if seg == "."@ {
            if p.len() <= 1 {
                None
            } else {
                file_name(p.take(p.len() - 1))
            }
        } else if seg == ".."@ {
            None
        } else {
            Some(seg)
        }
    }
}

/// The last segment is a suffix of the path, preceded by a slash or nothing.
pub proof fn lemma_last_segment(p: Seq<char>)
    ensures
        last_segment(p).len() <= p.len(),
        last_segment(p) == p.skip(p.len() - last_segment(p).len()),
        forall|i: int| 0 <= i < last_segment(p).len() ==> #[trigger] last_segment(p)[i] != '/',
        last_segment(p).len() < p.len() ==> p[p.len() - last_segment(p).len() - 1] == '/',
    decreases p.len(),
{
    if p.len() == 0 || p.last() == '/' {
        assert(p.skip(p.len() as int) =~= Seq::<char>::empty());
    } else {
        lemma_last_segment(p.drop_last());
        let s = last_segment(p.drop_last());
        assert(p.drop_last().skip(p.drop_last().len() - s.len()).push(p.last()) =~= p.skip(
            p.len() - s.len() - 1,
        ));
    }
}

} // verus!

verus! {

/// A suffix without slashes that follows a slash, or the start, is the last
/// segment.
pub proof fn lemma_last_segment_at(p: Seq<char>, k: int)
    requires
        0 <= k <= p.len(),
        forall|i: int| k <= i < p.len() ==> #[trigger] p[i] != '/',
        k == 0 || p[k - 1] == '/',
    ensures
        last_segment(p) == p.skip(k),
    decreases p.len(),
{
    if p.len() == 0 {
        assert(p.skip(k) =~= Seq::<char>::empty());
    } else if p.last() == '/' {
        assert(k == p.len());
        assert(p.skip(k) =~= Seq::<char>::empty());
    } else {
        let q = p.drop_last();
        if k == p.len() {
            assert(p[k - 1] == '/');
        }
        assert forall|i: int| k <= i < q.len() implies #[trigger] q[i] != '/' by {
            assert(q[i] == p[i]);
        }
        if k > 0 {
            assert(q[k - 1] == p[k - 1]);
        }
        lemma_last_segment_at(q, k);
        assert(q.skip(k).push(p.last()) =~= p.skip(k));
    }
}

/// The final component of the path `p`, as `Path::file_name` reads it.
pub fn file_name_of(p: Vec<char>) -> (r: Option<Vec<char>>)
    ensures
        match file_name(p@) {
            Some(n) => r matches Some(v) && v@ == n,
            None => r is None,
        },
    decreases p@.len(),
{
    let n = p.len();
    if n > 0 && p[n - 1] == '/' {
        let mut q = p;
        q.pop();
        return file_name_of(q);
    }
    let mut k: usize = n;
    while k > 0 && p[k - 1] != '/'
        invariant
            k <= n == p@.len(),
            forall|i: int| k <= i < n ==> #[trigger] p@[i] != '/',
        decreases k,
    {
        k = k - 1;
    }
    proof {
        lemma_last_segment_at(p@, k as int);
        reveal_strlit(".");
        reveal_strlit("..");
    }
    let seg_len = n - k;
    if seg_len == 0 {
        return None;
    }
    if seg_len == 1 && p[k] == '.' {
        assert(last_segment(p@) =~= "."@);
        if n <= 1 {
            return None;
        }
        let mut q = p;
        q.pop();
        assert(q@ =~= p@.take(n - 1));
        return file_name_of(q);
    }
    assert(last_segment(p@) != "."@) by {
        if seg_len == 1 {
            assert(last_segment(p@)[0] == p@[k as int]);
        }
    }
    if seg_len == 2 && p[k] == '.' && p[k + 1] == '.' {
        assert(last_segment(p@) =~= ".."@);
        return None;
    }
    assert(last_segment(p@) != ".."@) by {
        if seg_len == 2 {
            assert(last_segment(p@)[0] == p@[k as int]);
            assert(last_segment(p@)[1] == p@[k + 1]);
        }
    }
    let mut seg: Vec<char> = Vec::new();
    let mut i: usize = k;
    while i < n
        invariant
            k <= i <= n == p@.len(),
            seg@ =~= p@.subrange(k as int, i as int),
        decreases n - i,
    {
        seg.push(p[i]);
        i = i + 1;
    }
    assert(seg@ =~= p@.skip(k as int));
    Some(seg)
}

/// A desktop id taken from a path or a bare value: the file name of the path,
/// or else the value itself when it is not empty.
pub open spec fn spec_desktop_id_from_path_or_value(value: Seq<char>) -> Option<Seq<char>> {
    match file_name(value) {
        Some(n) => Some(n),
        None => if value.len() == 0 {
            None
        } else {
            Some(value)
        },
    }
}

/// A desktop id taken from a path or a bare value.
pub fn desktop_id_from_path_or_value(value: &[char]) -> (r: Option<String>)
    ensures
        match spec_desktop_id_from_path_or_value(value@) {
            Some(n) => r matches Some(s) && s@ == n,
            None => r is None,
        },
{
    let mut v: Vec<char> = Vec::new();
    let mut i: usize = 0;
    while i < value.len()
        invariant
            i <= value@.len(),
            v@ =~= value@.subrange(0, i as int),
        decreases value@.len() - i,
    {
        v.push(value[i]);
        i = i + 1;
    }
    assert(v@ =~= value@);
    match file_name_of(v) {
        Some(name) => Some(string_from_chars(name.as_slice())),
        None => if value.len() == 0 {
            None
        } else {
            Some(string_from_chars(value))
        },
    }
}

/// The pieces of `s` between separator bytes, given the piece `cur` read so
/// far, as `slice::split` gives them: an empty input gives one empty piece.
pub open spec fn split_bytes_from(s: Seq<u8>, sep: u8, cur: Seq<u8>) -> Seq<Seq<u8>>
    decreases s.len(),
{
    if s.len() == 0 {
        seq![cur]
    } else if s[0] == sep {
        seq![cur] + split_bytes_from(s.drop_first(), sep, seq![])
    } else {
        split_bytes_from(s.drop_first(), sep, cur.push(s[0]))
    }
}

/// The pieces of `s` between separator bytes.
pub open spec fn split_bytes(s: Seq<u8>, sep: u8) -> Seq<Seq<u8>> {
    split_bytes_from(s, sep, seq![])
}


/// The pieces of `s` between separator bytes.
pub fn split_on_byte(s: &[u8], sep: u8) -> (r: Vec<Vec<u8>>)
    ensures
        byte_views(r@) == split_bytes(s@, sep),
{
    let mut r: Vec<Vec<u8>> = Vec::new();
    let mut cur: Vec<u8> = Vec::new();
    let mut i: usize = 0;
    assert(s@.skip(0) =~= s@);
    assert(byte_views(r@) + split_bytes_from(s@.skip(0), sep, cur@) =~= split_bytes(s@, sep));
    while i < s.len()
        invariant
            i <= s@.len(),
            byte_views(r@) + split_bytes_from(s@.skip(i as int), sep, cur@) == split_bytes(
                s@,
                sep,
            ),
        decreases s@.len() - i,
    {
        let b = s[i];
        let ghost rest = s@.skip(i as int);
        assert(rest.drop_first() =~= s@.skip(i + 1));
        assert(rest[0] == b);
        if b == sep {
            let ghost before = byte_views(r@);
            r.push(cur);
            assert(byte_views(r@) =~= before + seq![cur@]);
            cur = Vec::new();
            assert(cur@ =~= Seq::<u8>::empty());
        } else {
            cur.push(b);
        }
        i = i + 1;
    }
    assert(s@.skip(i as int) =~= Seq::<u8>::empty());
    let ghost before = byte_views(r@);
    r.push(cur);
    assert(byte_views(r@) =~= before + seq![cur@]);
    r
}

} // verus!

verus! {

/// The desktop id that a process environment names, read from its entries
/// in order: the file name of `GIO_LAUNCHED_DESKTOP_FILE`, or the Flatpak id
/// with `.desktop` appended; entries that are not UTF-8 are skipped.
pub open spec fn environ_desktop_id(entries: Seq<Seq<u8>>) -> Option<Seq<char>>
    decreases entries.len(),
{
    if entries.len() == 0 {
        None
    } else {
        let e = entries[0];
        if !vstd::utf8::valid_utf8(e) {
            environ_desktop_id(entries.drop_first())
        } else {
            let c = vstd::utf8::decode_utf8(e);
            match strip_prefix(c, "GIO_LAUNCHED_DESKTOP_FILE="@) {
                Some(v) => spec_desktop_id_from_path_or_value(v),
                None => match strip_prefix(c, "FLATPAK_ID="@) {
                    Some(v) => Some(v + ".desktop"@),
                    None => environ_desktop_id(entries.drop_first()),
                },
            }
        }
    }
}

/// The desktop id that the NUL-separated environment of a process names.
pub fn desktop_id_from_environ(environ: &[u8]) -> (r: Option<String>)
    ensures
        match environ_desktop_id(split_bytes(environ@, 0)) {
            Some(n) => r matches Some(s) && s@ == n,
            None => r is None,
        },
{
    let entries = split_on_byte(environ, 0);
    let ghost all = byte_views(entries@);
    let gio = chars_of("GIO_LAUNCHED_DESKTOP_FILE=");
    let flatpak = chars_of("FLATPAK_ID=");
    let suffix = chars_of(".desktop");
    let mut i: usize = 0;
    assert(all.skip(0) =~= all);
    while i < entries.len()
        invariant
            i <= entries@.len(),
            all == byte_views(entries@),
            all == split_bytes(environ@, 0),
            gio@ == "GIO_LAUNCHED_DESKTOP_FILE="@,
            flatpak@ == "FLATPAK_ID="@,
            suffix@ == ".desktop"@,
            environ_desktop_id(all) == environ_desktop_id(all.skip(i as int)),
        decreases entries@.len() - i,
    {
        let ghost rest = all.skip(i as int);
        assert(rest[0] == entries@[i as int]@);
        assert(rest.drop_first() =~= all.skip(i + 1));
        match utf8_chars(entries[i].as_slice()) {
            None => {},
            Some(entry) => {
                match strip_prefix_chars(entry.as_slice(), gio.as_slice()) {
                    Some(value) => {
                        return desktop_id_from_path_or_value(value.as_slice());
                    },
                    None => {},
                }
                match strip_prefix_chars(entry.as_slice(), flatpak.as_slice()) {
                    Some(value) => {
                        let mut id = value;
                        let mut k: usize = 0;
                        let ghost base = id@;
                        while k < suffix.len()
                            invariant
                                k <= suffix@.len(),
                                id@ =~= base + suffix@.subrange(0, k as int),
                            decreases suffix@.len() - k,
                        {
                            id.push(suffix[k]);
                            k = k + 1;
                        }
                        assert(suffix@.subrange(0, suffix@.len() as int) =~= suffix@);
                        return Some(string_from_chars(id.as_slice()));
                    },
                    None => {},
                }
            },
        }
        i = i + 1;
    }
    None
}

/// Whether an environment entry is UTF-8 and sets the variable `name`
/// (`name` holds the `=`).
pub open spec fn entry_sets(entry: Seq<u8>, name: Seq<char>) -> bool {
    vstd::utf8::valid_utf8(entry) && has_prefix(vstd::utf8::decode_utf8(entry), name)
}

/// A Flatpak process names its desktop file by its application id: when the
/// first entry of the environment that sets `GIO_LAUNCHED_DESKTOP_FILE` or
/// `FLATPAK_ID` is `FLATPAK_ID=v`, the desktop id is `v` followed by
/// `.desktop`.
pub proof fn law_flatpak_id_names_its_desktop_file(entries: Seq<Seq<u8>>, k: int, v: Seq<char>)
    requires
        0 <= k < entries.len(),
        vstd::utf8::valid_utf8(entries[k]),
        vstd::utf8::decode_utf8(entries[k]) == "FLATPAK_ID="@ + v,
        forall|j: int|
            0 <= j < k ==> !entry_sets(#[trigger] entries[j], "GIO_LAUNCHED_DESKTOP_FILE="@) && !entry_sets(
                entries[j],
                "FLATPAK_ID="@,
            ),
    ensures
        environ_desktop_id(entries) == Some(v + ".desktop"@),
    decreases k,
{
    reveal_strlit("FLATPAK_ID=");
    reveal_strlit("GIO_LAUNCHED_DESKTOP_FILE=");
    let c = vstd::utf8::decode_utf8(entries[0]);
    if k == 0 {
        let f = "FLATPAK_ID="@;
        assert(c.subrange(0, f.len() as int) =~= f);
        assert(c.skip(f.len() as int) =~= v);
        assert(c[0] == 'F');
        assert(!has_prefix(c, "GIO_LAUNCHED_DESKTOP_FILE="@)) by {
            if has_prefix(c, "GIO_LAUNCHED_DESKTOP_FILE="@) {
                assert(c.subrange(0, 26)[0] == 'G');
            }
        }
    } else {
        assert(!entry_sets(entries[0], "GIO_LAUNCHED_DESKTOP_FILE="@));
        assert(!entry_sets(entries[0], "FLATPAK_ID="@));
        let rest = entries.drop_first();
        assert forall|j: int| 0 <= j < k - 1 implies !entry_sets(#[trigger] rest[j], "GIO_LAUNCHED_DESKTOP_FILE="@)
            && !entry_sets(rest[j], "FLATPAK_ID="@) by {
            assert(rest[j] == entries[j + 1]);
        }
        assert(rest[k - 1] == entries[k]);
        law_flatpak_id_names_its_desktop_file(rest, k - 1, v);
    }
}

/// The arguments of a command line that are UTF-8 and not empty, decoded.
pub open spec fn cmdline_parts(entries: Seq<Seq<u8>>) -> Seq<Seq<char>>
    decreases entries.len(),
{
    if entries.len() == 0 {
        seq![]
    } else {
        let e = entries[0];
        let rest = cmdline_parts(entries.drop_first());
        if vstd::utf8::valid_utf8(e) && vstd::utf8::decode_utf8(e).len() > 0 {
            seq![vstd::utf8::decode_utf8(e)] + rest
        } else {
            rest
        }
    }
}

/// The desktop id that arguments from position `i` on name: the value of a
/// `--desktopfile=` argument, or the argument after a `--desktopfile`.
pub open spec fn cmdline_desktop_id_from(parts: Seq<Seq<char>>, i: int) -> Option<Seq<char>>
    decreases parts.len() - i,
{
    if i < 0 || i >= parts.len() {
        None
    } else {
        match strip_prefix(parts[i], "--desktopfile="@) {
            Some(v) => spec_desktop_id_from_path_or_value(v),
            None => if parts[i] == "--desktopfile"@ && i + 1 < parts.len() {
                spec_desktop_id_from_path_or_value(parts[i + 1])
            } else {
                cmdline_desktop_id_from(parts, i + 1)
            },
        }
    }
}

/// The char views of a sequence of char vectors.
pub open spec fn char_views(v: Seq<Vec<char>>) -> Seq<Seq<char>> {
    v.map_values(|w: Vec<char>| w@)
}

/// The desktop id that the NUL-separated command line of a process names.
pub fn desktop_id_from_cmdline(cmdline: &[u8]) -> (r: Option<String>)
    ensures
        match cmdline_desktop_id_from(cmdline_parts(split_bytes(cmdline@, 0)), 0) {
            Some(n) => r matches Some(s) && s@ == n,
            None => r is None,
        },
{
    let entries = split_on_byte(cmdline, 0);
    let ghost all = byte_views(entries@);
    let mut parts: Vec<Vec<char>> = Vec::new();
    let mut i: usize = entries.len();
    assert(all.skip(all.len() as int) =~= Seq::<Seq<u8>>::empty());
    while i > 0
        invariant
            i <= entries@.len(),
            all == byte_views(entries@),
            char_views(parts@) == cmdline_parts(all.skip(i as int)),
        decreases i,
    {
        let ghost rest = all.skip(i - 1);
        assert(rest.drop_first() =~= all.skip(i as int));
        assert(rest[0] == entries@[i - 1]@);
        match utf8_chars(entries[i - 1].as_slice()) {
            Some(part) => {
                if part.len() > 0 {
                    let ghost before = char_views(parts@);
                    parts.insert(0, part);
                    assert(char_views(parts@) =~= seq![part@] + before);
                }
            },
            None => {},
        }
        i = i - 1;
    }
    assert(all.skip(0) =~= all);
    let ghost ps = char_views(parts@);
    assert(ps == cmdline_parts(split_bytes(cmdline@, 0)));
    let prefix = chars_of("--desktopfile=");
    let flag = chars_of("--desktopfile");
    let mut k: usize = 0;
    while k < parts.len()
        invariant
            k <= parts@.len(),
            ps == char_views(parts@),
            ps == cmdline_parts(split_bytes(cmdline@, 0)),
            prefix@ == "--desktopfile="@,
            flag@ == "--desktopfile"@,
            cmdline_desktop_id_from(ps, 0) == cmdline_desktop_id_from(ps, k as int),
        decreases parts@.len() - k,
    {
        assert(ps[k as int] == parts@[k as int]@);
        match strip_prefix_chars(parts[k].as_slice(), prefix.as_slice()) {
            Some(value) => {
                return desktop_id_from_path_or_value(value.as_slice());
            },
            None => {},
        }
        if chars_equal(parts[k].as_slice(), flag.as_slice()) && k + 1 < parts.len() {
            assert(ps[k + 1] == parts@[k + 1]@);
            return desktop_id_from_path_or_value(parts[k + 1].as_slice());
        }
        k = k + 1;
    }
    None
}

} // verus!
