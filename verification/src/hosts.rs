use vstd::prelude::*;

use crate::ordering::{
    insert_sorted, lemma_lt_asymmetric, lemma_lt_irreflexive, seq_lt, strictly_sorted, vec_views,
};
use crate::policy::{PolicyConfig, RuleConfig, RulePattern, RulePatternKind, RuleTier};
use crate::text::{
    append_chars, chars_of, split_whitespace, views, words, find, find_chars, has_prefix, lowercase_chars, occurs_at,
    string_from_chars, string_views, strip_prefix, strip_prefix_chars, to_ascii_lowercase, trim, trim_chars,
    trim_end_char, trim_end_char_chars, trim_start_char, trim_start_char_chars,
};

verus! {

/// The line that opens the block of the hosts file that this program manages.
pub open spec fn begin_marker() -> Seq<char> {
    seq![
        '#', ' ', 'B', 'E', 'G', 'I', 'N', ' ', 'B', 'L', 'O', 'C', 'K', 'U', 'N', 'T', 'U', ' ',
        'M', 'A', 'N', 'A', 'G', 'E', 'D',
    ]
}

/// The line that closes the managed block.
pub open spec fn end_marker() -> Seq<char> {
    seq![
        '#', ' ', 'E', 'N', 'D', ' ', 'B', 'L', 'O', 'C', 'K', 'U', 'N', 'T', 'U', ' ', 'M', 'A',
        'N', 'A', 'G', 'E', 'D',
    ]
}

/// A single line feed.
pub open spec fn newline() -> Seq<char> {
    seq!['\n']
}

/// Where the managed block found at `begin` ends: just past its end marker,
/// when one follows.
pub open spec fn block_end(current: Seq<char>, begin: int) -> Option<int> {
    match find(current.skip(begin), end_marker()) {
        Some(relative) => Some(begin + relative + end_marker().len()),
        None => None,
    }
}

/// Where the text after the managed block starts: past the line feed that
/// ends the end marker's line, or at the end of the text.
pub open spec fn suffix_start(current: Seq<char>, end: int) -> int {
    match find(current.skip(end), newline()) {
        Some(offset) => end + offset + 1,
        None => current.len() as int,
    }
}

/// The text before a block followed by the block, one blank line between.
pub open spec fn join_block(prefix: Seq<char>, block: Seq<char>) -> Seq<char> {
    if prefix.len() == 0 {
        block
    } else {
        prefix + seq!['\n', '\n'] + block
    }
}

/// The text that follows a block: nothing, or a line feed and the rest.
pub open spec fn tail_after(suffix: Seq<char>) -> Seq<char> {
    if suffix.len() > 0 {
        newline() + suffix
    } else {
        Seq::empty()
    }
}

/// The hosts file `current` with its managed block put in place of the old
/// one, or appended after a blank line when there is none; an unterminated
/// block is replaced up to the end of the file.
pub open spec fn spec_replace_managed_block(current: Seq<char>, block: Seq<char>) -> Seq<char> {
    match find(current, begin_marker()) {
        None => join_block(trim_end_char(current, '\n'), block),
        Some(b) => match block_end(current, b) {
            None => join_block(trim_end_char(current.take(b), '\n'), block),
            Some(e) => join_block(trim_end_char(current.take(b), '\n'), block) + tail_after(
                trim_start_char(current.skip(suffix_start(current, e)), '\n'),
            ),
        },
    }
}

/// The hosts file `current` without its managed block; the text around it is
/// kept, with line feeds between them and at the end.
pub open spec fn spec_remove_managed_block(current: Seq<char>) -> Seq<char> {
    match find(current, begin_marker()) {
        None => current,
        Some(b) => match block_end(current, b) {
            None => trim_end_char(current.take(b), '\n'),
            Some(e) => {
                let prefix = trim_end_char(current.take(b), '\n');
                let suffix = trim_start_char(current.skip(suffix_start(current, e)), '\n');
                let joined = if suffix.len() > 0 {
                    if prefix.len() > 0 {
                        prefix + newline() + suffix
                    } else {
                        suffix
                    }
                } else {
                    prefix
                };
                if joined.len() > 0 {
                    joined + newline()
                } else {
                    joined
                }
            },
        },
    }
}

/// Whether `current` holds a begin marker followed, somewhere, by an end marker.
pub open spec fn spec_managed_block_present(current: Seq<char>) -> bool {
    match find(current, begin_marker()) {
        Some(b) => find(current.skip(b), end_marker()) is Some,
        None => false,
    }
}

/// `s` with every carriage return that precedes a line feed dropped, as
/// `str::replace("\r\n", "\n")` gives it.
pub open spec fn normalize_crlf(s: Seq<char>) -> Seq<char>
    decreases s.len(),
{
    if s.len() == 0 {
        s
    } else if s.len() >= 2 && s[0] == '\r' && s[1] == '\n' {
        newline() + normalize_crlf(s.skip(2))
    } else {
        seq![s[0]] + normalize_crlf(s.skip(1))
    }
}

fn begin_marker_chars() -> (r: Vec<char>)
    ensures
        r@ == begin_marker(),
{
    let r = chars_of("# BEGIN BLOCKUNTU MANAGED");
    proof {
        reveal_strlit("# BEGIN BLOCKUNTU MANAGED");
    }
    assert(r@ =~= begin_marker());
    r
}

fn end_marker_chars() -> (r: Vec<char>)
    ensures
        r@ == end_marker(),
{
    let r = chars_of("# END BLOCKUNTU MANAGED");
    proof {
        reveal_strlit("# END BLOCKUNTU MANAGED");
    }
    assert(r@ =~= end_marker());
    r
}

/// The prefix, a blank line and the block.
fn joined_block(prefix: &[char], block: &[char]) -> (r: Vec<char>)
    ensures
        r@ == join_block(prefix@, block@),
{
    let mut out: Vec<char> = Vec::new();
    append_chars(&mut out, prefix);
    if out.len() > 0 {
        out.push('\n');
        out.push('\n');
    }
    append_chars(&mut out, block);
    assert(out@ =~= join_block(prefix@, block@));
    out
}

/// Where the text after a managed block ending at `end` starts.
fn suffix_start_of(current: &[char], end: usize) -> (r: usize)
    requires
        end <= current@.len(),
    ensures
        r == suffix_start(current@, end as int),
        end <= r <= current@.len(),
{
    let rest = vstd::slice::slice_subrange(current, end, current.len());
    let nl: Vec<char> = vec!['\n'];
    assert(nl@ =~= newline());
    assert(rest@ =~= current@.skip(end as int));
    match find_chars(rest, nl.as_slice()) {
        Some(offset) => end + offset + 1,
        None => current.len(),
    }
}

/// The end of the managed block that starts at `begin`, if it is closed.
fn block_end_of(current: &[char], begin: usize, end_marker_text: &[char]) -> (r: Option<usize>)
    requires
        begin <= current@.len(),
        end_marker_text@ == end_marker(),
    ensures
        match r {
            Some(e) => block_end(current@, begin as int) == Some(e as int) && e <= current@.len(),
            None => block_end(current@, begin as int) is None,
        },
{
    let rest = vstd::slice::slice_subrange(current, begin, current.len());
    assert(rest@ =~= current@.skip(begin as int));
    match find_chars(rest, end_marker_text) {
        Some(relative) => Some(begin + relative + end_marker_text.len()),
        None => None,
    }
}

/// The hosts file `current` with `managed_block` in place of its managed
/// block, or appended after a blank line when it has none.
pub fn replace_managed_block(current: &str, managed_block: &str) -> (r: String)
    ensures
        r@ == spec_replace_managed_block(current@, managed_block@),
{
    let cur = chars_of(current);
    let block = chars_of(managed_block);
    let begin_text = begin_marker_chars();
    let end_text = end_marker_chars();
    match find_chars(cur.as_slice(), begin_text.as_slice()) {
        None => {
            let prefix = trim_end_char_chars(cur.as_slice(), '\n');
            let out = joined_block(prefix.as_slice(), block.as_slice());
            string_from_chars(out.as_slice())
        },
        Some(b) => {
            let head = vstd::slice::slice_subrange(cur.as_slice(), 0, b);
            assert(head@ =~= cur@.take(b as int));
            let prefix = trim_end_char_chars(head, '\n');
            let mut out = joined_block(prefix.as_slice(), block.as_slice());
            match block_end_of(cur.as_slice(), b, end_text.as_slice()) {
                None => {},
                Some(e) => {
                    let start = suffix_start_of(cur.as_slice(), e);
                    let rest = vstd::slice::slice_subrange(cur.as_slice(), start, cur.len());
                    assert(rest@ =~= cur@.skip(start as int));
                    let suffix = trim_start_char_chars(rest, '\n');
                    if suffix.len() > 0 {
                        out.push('\n');
                        append_chars(&mut out, suffix.as_slice());
                    }
                    assert(out@ =~= join_block(trim_end_char(cur@.take(b as int), '\n'), block@)
                        + tail_after(suffix@));
                },
            }
            string_from_chars(out.as_slice())
        },
    }
}

/// The hosts file `current` without its managed block.
pub fn remove_managed_block_from(current: &str) -> (r: String)
    ensures
        r@ == spec_remove_managed_block(current@),
{
    let cur = chars_of(current);
    let begin_text = begin_marker_chars();
    let end_text = end_marker_chars();
    match find_chars(cur.as_slice(), begin_text.as_slice()) {
        None => string_from_chars(cur.as_slice()),
        Some(b) => {
            let head = vstd::slice::slice_subrange(cur.as_slice(), 0, b);
            assert(head@ =~= cur@.take(b as int));
            let mut out = trim_end_char_chars(head, '\n');
            match block_end_of(cur.as_slice(), b, end_text.as_slice()) {
                None => string_from_chars(out.as_slice()),
                Some(e) => {
                    let ghost prefix = out@;
                    let start = suffix_start_of(cur.as_slice(), e);
                    let rest = vstd::slice::slice_subrange(cur.as_slice(), start, cur.len());
                    assert(rest@ =~= cur@.skip(start as int));
                    let suffix = trim_start_char_chars(rest, '\n');
                    if suffix.len() > 0 {
                        if out.len() > 0 {
                            out.push('\n');
                        }
                        append_chars(&mut out, suffix.as_slice());
                    }
                    let ghost joined = out@;
                    assert(joined =~= (if suffix@.len() > 0 {
                        if prefix.len() > 0 {
                            prefix + newline() + suffix@
                        } else {
                            suffix@
                        }
                    } else {
                        prefix
                    }));
                    if out.len() > 0 {
                        out.push('\n');
                    }
                    assert(out@ =~= (if joined.len() > 0 {
                        joined + newline()
                    } else {
                        joined
                    }));
                    string_from_chars(out.as_slice())
                },
            }
        },
    }
}

/// Whether the hosts file `current` holds a managed block.
pub fn managed_block_present(current: &str) -> (r: bool)
    ensures
        r == spec_managed_block_present(current@),
{
    let cur = chars_of(current);
    let begin_text = begin_marker_chars();
    let end_text = end_marker_chars();
    match find_chars(cur.as_slice(), begin_text.as_slice()) {
        None => false,
        Some(b) => {
            let rest = vstd::slice::slice_subrange(cur.as_slice(), b, cur.len());
            assert(rest@ =~= cur@.skip(b as int));
            find_chars(rest, end_text.as_slice()).is_some()
        },
    }
}

/// `value` with each carriage return that precedes a line feed dropped.
pub fn normalize_line_endings(value: &str) -> (r: String)
    ensures
        r@ == normalize_crlf(value@),
{
    let s = chars_of(value);
    let mut out: Vec<char> = Vec::new();
    let mut i: usize = 0;
    assert(s@.skip(0) =~= s@);
    while i < s.len()
        invariant
            i <= s@.len(),
            out@ + normalize_crlf(s@.skip(i as int)) == normalize_crlf(s@),
        decreases s@.len() - i,
    {
        let ghost rest = s@.skip(i as int);
        if i + 1 < s.len() && s[i] == '\r' && s[i + 1] == '\n' {
            assert(rest.skip(2) =~= s@.skip(i + 2));
            out.push('\n');
            assert(out@ + normalize_crlf(s@.skip(i + 2)) =~= normalize_crlf(s@));
            i = i + 2;
        } else {
            assert(rest.skip(1) =~= s@.skip(i + 1));
            out.push(s[i]);
            assert(out@ + normalize_crlf(s@.skip(i + 1)) =~= normalize_crlf(s@));
            i = i + 1;
        }
    }
    assert(out@ =~= normalize_crlf(s@));
    string_from_chars(out.as_slice())
}


/// "www.", which a domain that also covers its subdomains gets in front.
pub open spec fn www_prefix() -> Seq<char> {
    seq!['w', 'w', 'w', '.']
}

/// A domain pattern's value as the hosts file lists it: trimmed, without
/// trailing dots, in ASCII lower case.
pub open spec fn normalized_domain(value: Seq<char>) -> Seq<char> {
    to_ascii_lowercase(trim_end_char(trim(value), '.'))
}

/// The host names that one website pattern puts in the hosts file: none for
/// a pattern that is not a domain or whose domain is empty; the domain, and
/// its "www." form when the pattern covers subdomains and the domain does
/// not already start with "www.".
pub open spec fn pattern_domains(p: RulePattern) -> Set<Seq<char>> {
    let d = normalized_domain(p.value@);
    if p.kind != RulePatternKind::Domain || d.len() == 0 {
        Set::empty()
    } else if p.match_subdomains && !has_prefix(d, www_prefix()) {
        set![d, www_prefix() + d]
    } else {
        set![d]
    }
}

/// The host names of a list of patterns.
pub open spec fn patterns_domains(ps: Seq<RulePattern>) -> Set<Seq<char>>
    decreases ps.len(),
{
    if ps.len() == 0 {
        Set::empty()
    } else {
        patterns_domains(ps.drop_last()).union(pattern_domains(ps.last()))
    }
}

/// The host names of the enabled Tier 1 site lists among `rules`: a Tier 1
/// list blocks only while it is enabled, and the other tiers do not reach
/// the hosts file.
pub open spec fn rules_domains(rules: Seq<RuleConfig>) -> Set<Seq<char>>
    decreases rules.len(),
{
    if rules.len() == 0 {
        Set::empty()
    } else if rules.last().tier == RuleTier::Hard && rules.last().enabled {
        rules_domains(rules.drop_last()).union(patterns_domains(rules.last().patterns@))
    } else {
        rules_domains(rules.drop_last())
    }
}

/// The host names of `rules` in increasing order, each once.
pub open spec fn sorted_domains(rules: Seq<RuleConfig>) -> Seq<Seq<char>> {
    choose|s: Seq<Seq<char>>| strictly_sorted(s) && s.to_set() == rules_domains(rules)
}

/// Two strictly increasing sequences with the same elements are equal.
pub proof fn lemma_sorted_unique(a: Seq<Seq<char>>, b: Seq<Seq<char>>)
    requires
        strictly_sorted(a),
        strictly_sorted(b),
        a.to_set() == b.to_set(),
    ensures
        a == b,
    decreases a.len(),
{
    if a.len() == 0 {
        if b.len() > 0 {
            assert(b.to_set().contains(b[0]));
        }
        assert(b =~= a);
    } else {
        assert(a.to_set().contains(a[0]));
        assert(b.to_set().contains(a[0]));
        let k = choose|k: int| 0 <= k < b.len() && b[k] == a[0];
        assert(b.to_set().contains(b[0]));
        assert(a.to_set().contains(b[0]));
        let m = choose|m: int| 0 <= m < a.len() && a[m] == b[0];
        if k > 0 {
            assert(seq_lt(b[0], b[k]));
            if m == 0 {
                lemma_lt_irreflexive(a[0]);
            } else {
                assert(seq_lt(a[0], a[m]));
                lemma_lt_asymmetric(a[0], a[m]);
            }
        }
        assert(a[0] == b[0]);
        let a1 = a.drop_first();
        let b1 = b.drop_first();
        assert forall|x: Seq<char>| a1.to_set().contains(x) <==> b1.to_set().contains(x) by {
            if a1.to_set().contains(x) {
                let i = choose|i: int| 0 <= i < a1.len() && a1[i] == x;
                assert(a[i + 1] == x);
                assert(seq_lt(a[0], a[i + 1]));
                assert(a.to_set().contains(x));
                let j = choose|j: int| 0 <= j < b.len() && b[j] == x;
                if j == 0 {
                    lemma_lt_irreflexive(x);
                }
                assert(b1[j - 1] == x);
            }
            if b1.to_set().contains(x) {
                let i = choose|i: int| 0 <= i < b1.len() && b1[i] == x;
                assert(b[i + 1] == x);
                assert(seq_lt(b[0], b[i + 1]));
                assert(b.to_set().contains(x));
                let j = choose|j: int| 0 <= j < a.len() && a[j] == x;
                if j == 0 {
                    lemma_lt_irreflexive(x);
                }
                assert(a1[j - 1] == x);
            }
        }
        assert(a1.to_set() =~= b1.to_set());
        lemma_sorted_unique(a1, b1);
        assert(a =~= seq![a[0]] + a1);
        assert(b =~= seq![b[0]] + b1);
    }
}

/// The normalized host name of a pattern value.
fn normalized_domain_chars(value: &str) -> (r: Vec<char>)
    ensures
        r@ == normalized_domain(value@),
{
    let raw = chars_of(value);
    let trimmed = trim_chars(raw.as_slice());
    let undotted = trim_end_char_chars(trimmed.as_slice(), '.');
    lowercase_chars(undotted.as_slice())
}

/// Adds the host names of one pattern to a sorted list.
fn add_pattern_domains(list: &mut Vec<Vec<char>>, pattern: &RulePattern)
    requires
        strictly_sorted(vec_views(old(list)@)),
    ensures
        strictly_sorted(vec_views(final(list)@)),
        vec_views(final(list)@).to_set() == vec_views(old(list)@).to_set().union(
            pattern_domains(*pattern),
        ),
{
    let ghost before = vec_views(list@).to_set();
    if pattern.kind != RulePatternKind::Domain {
        assert(before.union(pattern_domains(*pattern)) =~= before);
        return;
    }
    let d = normalized_domain_chars(&pattern.value);
    if d.len() == 0 {
        assert(before.union(pattern_domains(*pattern)) =~= before);
        return;
    }
    let www: Vec<char> = vec!['w', 'w', 'w', '.'];
    assert(www@ =~= www_prefix());
    let already_www = strip_prefix_chars(d.as_slice(), www.as_slice()).is_some();
    assert(already_www == has_prefix(d@, www_prefix()));
    let ghost dv = d@;
    if pattern.match_subdomains && !already_www {
        let mut w = www.clone();
        append_chars(&mut w, d.as_slice());
        assert(w@ == www_prefix() + dv);
        let ghost wv = w@;
        insert_sorted(list, d);
        insert_sorted(list, w);
        assert(before.insert(dv).insert(wv) =~= before.union(set![dv, wv]));
    } else {
        insert_sorted(list, d);
        assert(before.insert(dv) =~= before.union(set![dv]));
    }
}

/// The host names that the hosts file blocks for `config`: those of its
/// enabled Tier 1 site lists, in increasing order, each once.
///
/// The names are gathered in a vector kept sorted and free of repeats, which
/// gives the order and uniqueness of an ordered set: vstd specifies no
/// ordered set of strings, so a `BTreeSet<String>` would leave this order
/// unproved.
pub fn managed_domains(config: &PolicyConfig) -> (r: Vec<Vec<char>>)
    ensures
        vec_views(r@) == sorted_domains(config.rules@),
{
    let mut list: Vec<Vec<char>> = Vec::new();
    let rules = &config.rules;
    let mut i: usize = 0;
    assert(vec_views(list@).to_set() =~= Set::<Seq<char>>::empty());
    while i < rules.len()
        invariant
            i <= rules@.len(),
            strictly_sorted(vec_views(list@)),
            vec_views(list@).to_set() == rules_domains(rules@.take(i as int)),
        decreases rules@.len() - i,
    {
        let rule = &rules[i];
        assert(rules@.take(i + 1).drop_last() =~= rules@.take(i as int));
        if rule.tier == RuleTier::Hard && rule.enabled {
            let patterns = &rule.patterns;
            let ghost base = vec_views(list@).to_set();
            let mut j: usize = 0;
            assert(base.union(patterns_domains(patterns@.take(0))) =~= base);
            while j < patterns.len()
                invariant
                    j <= patterns@.len(),
                    strictly_sorted(vec_views(list@)),
                    vec_views(list@).to_set() == base.union(patterns_domains(patterns@.take(j as int))),
                decreases patterns@.len() - j,
            {
                add_pattern_domains(&mut list, &patterns[j]);
                assert(patterns@.take(j + 1).drop_last() =~= patterns@.take(j as int));
                assert(base.union(patterns_domains(patterns@.take(j as int))).union(
                    pattern_domains(patterns@[j as int]),
                ) =~= base.union(patterns_domains(patterns@.take(j + 1))));
                j = j + 1;
            }
            assert(patterns@.take(patterns@.len() as int) =~= patterns@);
        }
        i = i + 1;
    }
    assert(rules@.take(rules@.len() as int) =~= rules@);
    proof {
        let v = vec_views(list@);
        assert(strictly_sorted(v) && v.to_set() == rules_domains(config.rules@));
        let c = sorted_domains(config.rules@);
        lemma_sorted_unique(v, c);
    }
    list
}


/// The comment line under the begin marker, with its line feed.
pub open spec fn comment_line() -> Seq<char> {
    seq![
        '#', ' ', 'T', 'h', 'i', 's', ' ', 'b', 'l', 'o', 'c', 'k', ' ', 'i',
        's', ' ', 'm', 'a', 'n', 'a', 'g', 'e', 'd', ' ', 'b', 'y', ' ', 'b',
        'l', 'o', 'c', 'k', 'u', 'n', 't', 'u', 'd', '.', ' ', 'M', 'a', 'n',
        'u', 'a', 'l', ' ', 'e', 'd', 'i', 't', 's', ' ', 'a', 'r', 'e', ' ',
        'r', 'e', 'p', 'a', 'i', 'r', 'e', 'd', '.', '\n',
    ]
}

/// The start of a host name's IPv4 line.
pub open spec fn ipv4_sink() -> Seq<char> {
    seq!['0', '.', '0', '.', '0', '.', '0', ' ']
}

/// The start of a host name's IPv6 line.
pub open spec fn ipv6_sink() -> Seq<char> {
    seq![':', ':', ' ']
}

/// The two lines that send a host name nowhere, over IPv4 and IPv6.
pub open spec fn domain_entry(d: Seq<char>) -> Seq<char> {
    ipv4_sink() + d + newline() + ipv6_sink() + d + newline()
}

/// The lines of the host names `ds`, in order.
pub open spec fn domain_lines(ds: Seq<Seq<char>>) -> Seq<char>
    decreases ds.len(),
{
    if ds.len() == 0 {
        Seq::empty()
    } else {
        domain_lines(ds.drop_last()) + domain_entry(ds.last())
    }
}

/// The managed block for the host names `ds`: the begin marker, the comment,
/// the lines of each name and the end marker, each line ended.
pub open spec fn block_text(ds: Seq<Seq<char>>) -> Seq<char> {
    begin_marker() + newline() + comment_line() + domain_lines(ds) + end_marker() + newline()
}

/// The managed block of the hosts file for `config`.
pub fn render_managed_block(config: &PolicyConfig) -> (r: String)
    ensures
        r@ == block_text(sorted_domains(config.rules@)),
{
    let domains = managed_domains(config);
    let mut block = begin_marker_chars();
    block.push('\n');
    let comment = chars_of("# This block is managed by blockuntud. Manual edits are repaired.");
    proof {
        reveal_strlit("# This block is managed by blockuntud. Manual edits are repaired.");
    }
    append_chars(&mut block, comment.as_slice());
    block.push('\n');
    assert(block@ =~= begin_marker() + newline() + comment_line());
    let ghost head = block@;
    let ipv4: Vec<char> = vec!['0', '.', '0', '.', '0', '.', '0', ' '];
    let ipv6: Vec<char> = vec![':', ':', ' '];
    let mut i: usize = 0;
    while i < domains.len()
        invariant
            i <= domains@.len(),
            ipv4@ == ipv4_sink(),
            ipv6@ == ipv6_sink(),
            block@ == head + domain_lines(vec_views(domains@).take(i as int)),
        decreases domains@.len() - i,
    {
        let ghost before = block@;
        append_chars(&mut block, ipv4.as_slice());
        append_chars(&mut block, domains[i].as_slice());
        block.push('\n');
        append_chars(&mut block, ipv6.as_slice());
        append_chars(&mut block, domains[i].as_slice());
        block.push('\n');
        let ghost d = domains@[i as int]@;
        assert(vec_views(domains@).take(i + 1).drop_last() =~= vec_views(domains@).take(i as int));
        assert(vec_views(domains@).take(i + 1).last() == d);
        assert(block@ =~= before + domain_entry(d));
        i = i + 1;
    }
    assert(vec_views(domains@).take(domains@.len() as int) =~= vec_views(domains@));
    let end_text = end_marker_chars();
    append_chars(&mut block, end_text.as_slice());
    block.push('\n');
    assert(block@ =~= block_text(sorted_domains(config.rules@)));
    string_from_chars(block.as_slice())
}


/// Keeps the managed block of one hosts file.
#[derive(Debug, Clone)]
pub struct HostsManager {
    hosts_path: String,
    enforce_immutable: bool,
}

/// What a repair of the hosts file did.
#[derive(Debug, Clone, Copy, PartialEq, Eq, Structural)]
pub enum HostsRepairStatus {
    AlreadyCompliant,
    Repaired,
    SkippedStopped,
}

/// Whether the immutable attribute of the hosts file is set.
#[derive(Debug, Clone, Copy, PartialEq, Eq, Structural)]
pub enum HostsImmutableState {
    Enabled,
    Disabled,
    NotRequired,
    Unknown,
}

/// What the daemon reports of the hosts file.
#[derive(Debug, Clone)]
pub struct HostsFileStatus {
    pub path: String,
    pub expected_domain_count: usize,
    pub managed_block_present: bool,
    pub managed_block_compliant: bool,
    pub immutable_required: bool,
    pub immutable_state: HostsImmutableState,
    pub immutable_detail: String,
    pub detail: String,
}

/// The hosts file as it should read, given what it reads now: the managed
/// block for `config` in place.
pub open spec fn expected_hosts(current: Seq<char>, config: PolicyConfig) -> Seq<char> {
    spec_replace_managed_block(current, block_text(sorted_domains(config.rules@)))
}

/// Whether the hosts file already reads as it should, line endings aside.
pub open spec fn hosts_compliant(current: Seq<char>, config: PolicyConfig) -> bool {
    normalize_crlf(current) == normalize_crlf(expected_hosts(current, config))
}

/// Whether the first whitespace-separated word of `lsattr` output holds the
/// immutable flag `i`.
pub open spec fn lsattr_reports_immutable(stdout: Seq<char>) -> bool {
    words(stdout).len() > 0 && words(stdout)[0].contains('i')
}

impl HostsManager {
    /// The path of the managed hosts file.
    pub closed spec fn path_spec(&self) -> Seq<char> {
        self.hosts_path@
    }

    /// Whether the hosts file must carry the immutable attribute.
    pub closed spec fn enforces_immutable(&self) -> bool {
        self.enforce_immutable
    }

    /// A manager of the hosts file at `hosts_path` that leaves its
    /// attributes alone.
    pub fn new(hosts_path: String) -> (r: Self)
        ensures
            r.path_spec() == hosts_path@,
            !r.enforces_immutable(),
    {
        Self::new_with_immutable(hosts_path, false)
    }

    /// A manager of the hosts file at `hosts_path` that keeps it immutable
    /// when `enforce_immutable` is set.
    pub fn new_with_immutable(hosts_path: String, enforce_immutable: bool) -> (r: Self)
        ensures
            r.path_spec() == hosts_path@,
            r.enforces_immutable() == enforce_immutable,
    {
        HostsManager { hosts_path, enforce_immutable }
    }

    /// The path of the managed hosts file.
    pub fn hosts_path(&self) -> (r: &str)
        ensures
            r@ == self.path_spec(),
    {
        self.hosts_path.as_str()
    }

    /// Whether the immutable attribute must be cleared before the file is
    /// rewritten: when it is enforced and the file exists.
    pub fn clear_immutable_if_needed(&self, path_exists: bool) -> (r: bool)
        ensures
            r == (self.enforces_immutable() && path_exists),
    {
        self.enforce_immutable && path_exists
    }

    /// Whether the hosts file must carry the immutable attribute.
    pub fn enforce_immutable(&self) -> (r: bool)
        ensures
            r == self.enforces_immutable(),
    {
        self.enforce_immutable
    }

    /// The contents to write to a hosts file that reads `current`, when they
    /// differ from it other than in line endings; `None` when it complies.
    pub fn plan_repair(&self, current: &str, config: &PolicyConfig) -> (r: Option<String>)
        ensures
            match r {
                Some(expected) => !hosts_compliant(current@, *config) && expected@ == expected_hosts(
                    current@,
                    *config,
                ),
                None => hosts_compliant(current@, *config),
            },
    {
        let block = render_managed_block(config);
        let expected = replace_managed_block(current, block.as_str());
        let a = normalize_line_endings(current);
        let b = normalize_line_endings(expected.as_str());
        if crate::strings::str_equal(a.as_str(), b.as_str()) {
            None
        } else {
            Some(expected)
        }
    }

    /// The contents to write to a hosts file that reads `current` so that it
    /// loses its managed block, when that changes it other than in line
    /// endings; `None` when it has nothing to remove.
    pub fn plan_removal(current: &str) -> (r: Option<String>)
        ensures
            match r {
                Some(expected) => normalize_crlf(current@) != normalize_crlf(
                    spec_remove_managed_block(current@),
                ) && expected@ == spec_remove_managed_block(current@),
                None => normalize_crlf(current@) == normalize_crlf(
                    spec_remove_managed_block(current@),
                ),
            },
    {
        let expected = remove_managed_block_from(current);
        let a = normalize_line_endings(current);
        let b = normalize_line_endings(expected.as_str());
        if crate::strings::str_equal(a.as_str(), b.as_str()) {
            None
        } else {
            Some(expected)
        }
    }

    /// What a repair did: `Repaired` when it rewrote the file or restored
    /// its immutable attribute, else `AlreadyCompliant`.
    pub fn repair_status(contents_rewritten: bool, immutable_restored: bool) -> (r:
        HostsRepairStatus)
        ensures
            r == (if contents_rewritten || immutable_restored {
                HostsRepairStatus::Repaired
            } else {
                HostsRepairStatus::AlreadyCompliant
            }),
    {
        if contents_rewritten || immutable_restored {
            HostsRepairStatus::Repaired
        } else {
            HostsRepairStatus::AlreadyCompliant
        }
    }

    /// The immutable state to report, given what `lsattr` told of the file
    /// (or why it could not tell); not asked when the attribute is not
    /// required.
    pub fn immutable_status(&self, probe: Result<bool, String>) -> (r: (HostsImmutableState, String))
        ensures
            !self.enforces_immutable() ==> r.0 == HostsImmutableState::NotRequired && r.1@
                == "immutable flag is not required for this hosts path"@,
            self.enforces_immutable() ==> match probe {
                Ok(true) => r.0 == HostsImmutableState::Enabled && r.1@ == "immutable flag is set"@,
                Ok(false) => r.0 == HostsImmutableState::Disabled && r.1@
                    == "immutable flag is missing"@,
                Err(e) => r.0 == HostsImmutableState::Unknown && r.1@ == e@,
            },
    {
        if !self.enforce_immutable {
            return (
                HostsImmutableState::NotRequired,
                crate::strings::owned("immutable flag is not required for this hosts path"),
            );
        }
        match probe {
            Ok(true) => (HostsImmutableState::Enabled, crate::strings::owned("immutable flag is set")),
            Ok(false) => (
                HostsImmutableState::Disabled,
                crate::strings::owned("immutable flag is missing"),
            ),
            Err(e) => (HostsImmutableState::Unknown, e),
        }
    }

    /// The status of the hosts file, given what reading it gave (its text,
    /// or the reason it could not be read; a missing file reads as empty)
    /// and its immutable state.
    pub fn status(
        &self,
        config: &PolicyConfig,
        read: Result<String, String>,
        immutable: (HostsImmutableState, String),
    ) -> (r: HostsFileStatus)
        ensures
            r.path@ == self.path_spec(),
            r.expected_domain_count == sorted_domains(config.rules@).len(),
            r.immutable_required == self.enforces_immutable(),
            match read {
                Ok(current) => {
                    &&& r.managed_block_present == spec_managed_block_present(current@)
                    &&& r.managed_block_compliant == hosts_compliant(current@, *config)
                    &&& r.immutable_state == immutable.0
                    &&& r.immutable_detail@ == immutable.1@
                    &&& r.detail@ == (if hosts_compliant(current@, *config) {
                        "managed hosts block matches Tier 1 domain rules"@
                    } else {
                        "managed hosts block is missing or differs from Tier 1 domain rules"@
                    })
                },
                Err(e) => {
                    &&& !r.managed_block_present
                    &&& !r.managed_block_compliant
                    &&& r.immutable_state == HostsImmutableState::Unknown
                    &&& r.immutable_detail@ == "hosts file cannot be read: "@ + e@
                    &&& r.detail@ == "hosts file cannot be read: "@ + e@
                },
            },
    {
        let count = managed_domains(config).len();
        match read {
            Err(e) => {
                let mut text = chars_of("hosts file cannot be read: ");
                let err = chars_of(e.as_str());
                append_chars(&mut text, err.as_slice());
                let message = string_from_chars(text.as_slice());
                HostsFileStatus {
                    path: self.hosts_path.clone(),
                    expected_domain_count: count,
                    managed_block_present: false,
                    managed_block_compliant: false,
                    immutable_required: self.enforce_immutable,
                    immutable_state: HostsImmutableState::Unknown,
                    immutable_detail: message.clone(),
                    detail: message,
                }
            },
            Ok(current) => {
                let compliant = self.plan_repair(current.as_str(), config).is_none();
                let detail = if compliant {
                    crate::strings::owned("managed hosts block matches Tier 1 domain rules")
                } else {
                    crate::strings::owned(
                        "managed hosts block is missing or differs from Tier 1 domain rules",
                    )
                };
                HostsFileStatus {
                    path: self.hosts_path.clone(),
                    expected_domain_count: count,
                    managed_block_present: managed_block_present(current.as_str()),
                    managed_block_compliant: compliant,
                    immutable_required: self.enforce_immutable,
                    immutable_state: immutable.0,
                    immutable_detail: immutable.1,
                    detail,
                }
            },
        }
    }
}

/// Whether `lsattr -d` output marks the file immutable: its first word, the
/// attribute flags, holds an `i`.
pub fn lsattr_flags_immutable(stdout: &str) -> (r: bool)
    ensures
        r == lsattr_reports_immutable(stdout@),
{
    let text = chars_of(stdout);
    let parts = split_whitespace(text.as_slice());
    if parts.len() == 0 {
        return false;
    }
    let flags = &parts[0];
    assert(views(parts@)[0] == flags@);
    assert(words(stdout@).len() > 0 && words(stdout@)[0] == flags@);
    let mut k: usize = 0;
    while k < flags.len()
        invariant
            words(stdout@).len() > 0 && words(stdout@)[0] == flags@,
            k <= flags@.len(),
            forall|m: int| 0 <= m < k ==> flags@[m] != 'i',
        decreases flags@.len() - k,
    {
        if flags[k] == 'i' {
            assert(flags@[k as int] == 'i');
            assert(flags@.contains('i'));
            return true;
        }
        k = k + 1;
    }
    false
}

} // verus!

verus! {

/// Whether `d` holds no ASCII upper-case letter.
pub open spec fn no_ascii_upper(d: Seq<char>) -> bool {
    forall|k: int| 0 <= k < d.len() ==> !('A' <= #[trigger] d[k] && d[k] <= 'Z')
}

proof fn lemma_lowercase_no_upper(s: Seq<char>)
    ensures
        no_ascii_upper(to_ascii_lowercase(s)),
{
    let t = to_ascii_lowercase(s);
    assert forall|k: int| 0 <= k < t.len() implies !('A' <= #[trigger] t[k] && t[k] <= 'Z') by {
        assert(t[k] == crate::text::ascii_lower(s[k]));
    }
}

proof fn lemma_pattern_domains_shape(p: RulePattern)
    ensures
        pattern_domains(p).finite(),
        forall|d: Seq<char>| #[trigger] pattern_domains(p).contains(d) ==> no_ascii_upper(d),
{
    let d = normalized_domain(p.value@);
    lemma_lowercase_no_upper(trim_end_char(trim(p.value@), '.'));
    let w = www_prefix() + d;
    assert forall|k: int| 0 <= k < w.len() implies !('A' <= #[trigger] w[k] && w[k] <= 'Z') by {
        if k >= 4 {
            assert(w[k] == d[k - 4]);
        }
    }
}

proof fn lemma_patterns_domains_shape(ps: Seq<RulePattern>)
    ensures
        patterns_domains(ps).finite(),
        forall|d: Seq<char>| #[trigger] patterns_domains(ps).contains(d) ==> no_ascii_upper(d),
    decreases ps.len(),
{
    if ps.len() > 0 {
        lemma_patterns_domains_shape(ps.drop_last());
        lemma_pattern_domains_shape(ps.last());
    }
}

proof fn lemma_rules_domains_shape(rules: Seq<RuleConfig>)
    ensures
        rules_domains(rules).finite(),
        forall|d: Seq<char>| #[trigger] rules_domains(rules).contains(d) ==> no_ascii_upper(d),
    decreases rules.len(),
{
    if rules.len() > 0 {
        lemma_rules_domains_shape(rules.drop_last());
        lemma_patterns_domains_shape(rules.last().patterns@);
    }
}

proof fn lemma_greatest_exists(s: Set<Seq<char>>)
    requires
        s.finite(),
        s.len() > 0,
    ensures
        exists|m: Seq<char>|
            s.contains(m) && forall|y: Seq<char>| #[trigger] s.contains(y) && y != m ==> seq_lt(y, m),
    decreases s.len(),
{
    let x = s.choose();
    assert(s.contains(x));
    let r = s.remove(x);
    if r.len() == 0 {
        r.lemma_len0_is_empty();
        assert forall|y: Seq<char>| #[trigger] s.contains(y) && y != x implies seq_lt(y, x) by {
            assert(r.contains(y));
        }
    } else {
        lemma_greatest_exists(r);
        let m = choose|m: Seq<char>|
            r.contains(m) && forall|y: Seq<char>| #[trigger] r.contains(y) && y != m ==> seq_lt(y, m);
        if seq_lt(m, x) {
            assert forall|y: Seq<char>| #[trigger] s.contains(y) && y != x implies seq_lt(y, x) by {
                assert(r.contains(y));
                if y != m {
                    crate::ordering::lemma_lt_transitive(y, m, x);
                }
            }
        } else {
            crate::ordering::lemma_lt_total(m, x);
            assert forall|y: Seq<char>| #[trigger] s.contains(y) && y != m implies seq_lt(y, m) by {
                if y != x {
                    assert(r.contains(y));
                }
            }
        }
    }
}

proof fn lemma_sorted_exists(s: Set<Seq<char>>)
    requires
        s.finite(),
    ensures
        exists|q: Seq<Seq<char>>| strictly_sorted(q) && q.to_set() == s,
    decreases s.len(),
{
    if s.len() == 0 {
        s.lemma_len0_is_empty();
        let q = Seq::<Seq<char>>::empty();
        assert(q.to_set() =~= s);
        assert(strictly_sorted(q));
    } else {
        lemma_greatest_exists(s);
        let m = choose|m: Seq<char>|
            s.contains(m) && forall|y: Seq<char>| #[trigger] s.contains(y) && y != m ==> seq_lt(y, m);
        let r = s.remove(m);
        lemma_sorted_exists(r);
        let q0 = choose|q: Seq<Seq<char>>| strictly_sorted(q) && q.to_set() == r;
        let q = q0.push(m);
        assert forall|i: int, j: int| 0 <= i < j < q.len() implies seq_lt(
            #[trigger] q[i],
            #[trigger] q[j],
        ) by {
            if j < q0.len() {
                assert(q[i] == q0[i] && q[j] == q0[j]);
            } else {
                assert(q[i] == q0[i]);
                assert(q0.to_set().contains(q0[i]));
                assert(r.contains(q0[i]));
            }
        }
        q0.lemma_push_to_set_commute(m);
        assert(q.to_set() =~= s);
    }
}

/// The host names of `rules`, as `sorted_domains` lists them: strictly
/// increasing, the names of the Tier 1 patterns, none with an upper-case letter.
pub proof fn lemma_sorted_domains(rules: Seq<RuleConfig>)
    ensures
        strictly_sorted(sorted_domains(rules)),
        sorted_domains(rules).to_set() == rules_domains(rules),
        forall|i: int|
            0 <= i < sorted_domains(rules).len() ==> no_ascii_upper(
                #[trigger] sorted_domains(rules)[i],
            ),
{
    lemma_rules_domains_shape(rules);
    lemma_sorted_exists(rules_domains(rules));
    let q = sorted_domains(rules);
    assert forall|i: int| 0 <= i < q.len() implies no_ascii_upper(#[trigger] q[i]) by {
        assert(q.to_set().contains(q[i]));
    }
}

/// A text with no begin marker in it.
pub open spec fn no_begin_marker(p: Seq<char>) -> bool {
    forall|j: int| !occurs_at(p, begin_marker(), j)
}

proof fn lemma_prefix_occurrence(p: Seq<char>, x: Seq<char>, needle: Seq<char>, j: int)
    requires
        occurs_at(p + x, needle, j),
        j + needle.len() <= p.len(),
    ensures
        occurs_at(p, needle, j),
{
    assert((p + x).subrange(j, j + needle.len()) =~= p.subrange(j, j + needle.len()));
}

proof fn lemma_extend_occurrence(p: Seq<char>, x: Seq<char>, needle: Seq<char>, j: int)
    requires
        occurs_at(p, needle, j),
    ensures
        occurs_at(p + x, needle, j),
{
    assert((p + x).subrange(j, j + needle.len()) =~= p.subrange(j, j + needle.len()));
}

proof fn lemma_char_of_occurrence(s: Seq<char>, needle: Seq<char>, j: int, k: int)
    requires
        occurs_at(s, needle, j),
        0 <= k < needle.len(),
    ensures
        s[j + k] == needle[k],
{
    assert(s.subrange(j, j + needle.len())[k] == needle[k]);
}

/// In the text of a block put after `p`, followed by anything, the first
/// begin marker is the block's own.
proof fn lemma_begin_in_joined(p: Seq<char>, b: Seq<char>, t: Seq<char>)
    requires
        no_begin_marker(p),
        b.len() >= begin_marker().len(),
        b.take(begin_marker().len() as int) == begin_marker(),
    ensures
        find(join_block(p, b) + t, begin_marker()) == Some(
            if p.len() == 0 {
                0int
            } else {
                p.len() + 2int
            },
        ),
{
    let out = join_block(p, b) + t;
    let m = begin_marker();
    let at: int = if p.len() == 0 {
        0int
    } else {
        p.len() + 2int
    };
    assert(out.subrange(at, at + m.len()) =~= m) by {
        assert forall|k: int| 0 <= k < m.len() implies out.subrange(at, at + m.len())[k] == m[k] by {
            assert(out[at + k] == b[k]);
            assert(b.take(m.len() as int)[k] == b[k]);
        }
    }
    assert(forall|k: int| 0 <= k < 25 ==> begin_marker()[k] != '\n');
    assert forall|j: int| 0 <= j < at implies !occurs_at(out, m, j) by {
        if occurs_at(out, m, j) {
            let pl = p.len() as int;
            if j + m.len() <= pl {
                let rest = seq!['\n', '\n'] + b + t;
                assert(out =~= p + rest);
                lemma_prefix_occurrence(p, rest, m, j);
            } else if j <= pl {
                lemma_char_of_occurrence(out, m, j, pl - j);
                assert(out[pl] == '\n');
            } else {
                lemma_char_of_occurrence(out, m, j, 0);
                assert(out[j] == '\n');
            }
        }
    }
    crate::text::lemma_find_first(out, m, at);
}

} // verus!

verus! {

proof fn lemma_domain_lines_no_e(ds: Seq<Seq<char>>)
    requires
        forall|i: int| 0 <= i < ds.len() ==> no_ascii_upper(#[trigger] ds[i]),
    ensures
        forall|k: int| 0 <= k < domain_lines(ds).len() ==> #[trigger] domain_lines(ds)[k] != 'E',
    decreases ds.len(),
{
    if ds.len() > 0 {
        let init = ds.drop_last();
        assert forall|i: int| 0 <= i < init.len() implies no_ascii_upper(#[trigger] init[i]) by {
            assert(init[i] == ds[i]);
        }
        lemma_domain_lines_no_e(init);
        let d = ds.last();
        assert(no_ascii_upper(ds[ds.len() - 1]));
        let e = domain_entry(d);
        let a = domain_lines(init);
        assert forall|k: int| 0 <= k < (a + e).len() implies #[trigger] (a + e)[k] != 'E' by {
            if k >= a.len() {
                let m = k - a.len();
                let l = d.len() as int;
                if 8 <= m < 8 + l {
                    assert(e[m] == d[m - 8]);
                } else if 12 + l <= m < 12 + 2 * l {
                    assert(e[m] == d[m - 12 - l]);
                }
            }
        }
    }
}

/// In the managed block, followed by anything, the first end marker is the
/// one that closes the block.
proof fn lemma_end_in_block(ds: Seq<Seq<char>>, t: Seq<char>)
    requires
        forall|i: int| 0 <= i < ds.len() ==> no_ascii_upper(#[trigger] ds[i]),
    ensures
        find(block_text(ds) + t, end_marker()) == Some(block_text(ds).len() - 24),
{
    let h = begin_marker() + newline() + comment_line();
    let d = domain_lines(ds);
    let m = end_marker();
    let out = block_text(ds) + t;
    let q: int = (h.len() + d.len()) as int;
    assert(block_text(ds).len() == q + 24);
    assert(out.subrange(q, q + 23) =~= m) by {
        assert forall|k: int| 0 <= k < 23 implies out.subrange(q, q + 23)[k] == m[k] by {
            assert(out[q + k] == block_text(ds)[q + k]);
        }
    }
    lemma_domain_lines_no_e(ds);
    assert(forall|k: int|
        0 <= k < h.len() - 2 ==> !(#[trigger] h[k] == '#' && h[k + 1] == ' ' && h[k + 2] == 'E'));
    assert(forall|k: int| 1 <= k < 23 ==> #[trigger] end_marker()[k] != '#');
    assert forall|j: int| 0 <= j < q implies !occurs_at(out, m, j) by {
        if occurs_at(out, m, j) {
            if j + 23 <= q {
                lemma_char_of_occurrence(out, m, j, 0);
                lemma_char_of_occurrence(out, m, j, 1);
                lemma_char_of_occurrence(out, m, j, 2);
                if j + 2 >= h.len() {
                    assert(out[j + 2] == d[j + 2 - h.len()]);
                } else {
                    assert(out[j] == h[j]);
                    assert(out[j + 1] == h[j + 1]);
                    assert(out[j + 2] == h[j + 2]);
                }
            } else {
                lemma_char_of_occurrence(out, m, j, q - j);
                assert(out[q] == '#');
            }
        }
    }
    crate::text::lemma_find_first(out, m, q);
}

} // verus!

verus! {

/// The managed block for host names without upper-case letters has the
/// managed shape.
proof fn lemma_block_text_shape(ds: Seq<Seq<char>>)
    requires
        forall|i: int| 0 <= i < ds.len() ==> no_ascii_upper(#[trigger] ds[i]),
    ensures
        managed_block_shape(block_text(ds)),
{
    let b = block_text(ds);
    assert(b.take(25) =~= begin_marker());
    lemma_end_in_block(ds, Seq::empty());
    assert(b + Seq::<char>::empty() =~= b);
    crate::text::lemma_find_result(b, end_marker());
    assert(b.skip(b.len() - 24) =~= end_marker() + newline());
}

/// A managed block put after `p` and followed by `suffix` is put back
/// unchanged by a repair with the same block.
proof fn lemma_replace_fixed_point(p: Seq<char>, ds: Seq<Seq<char>>, suffix: Seq<char>)
    requires
        no_begin_marker(p),
        p.len() == 0 || p.last() != '\n',
        forall|i: int| 0 <= i < ds.len() ==> no_ascii_upper(#[trigger] ds[i]),
        suffix.len() == 0 || suffix[0] != '\n',
    ensures
        spec_replace_managed_block(
            join_block(p, block_text(ds)) + tail_after(suffix),
            block_text(ds),
        ) == join_block(p, block_text(ds)) + tail_after(suffix),
        spec_managed_block_present(join_block(p, block_text(ds)) + tail_after(suffix)),
        spec_remove_managed_block(join_block(p, block_text(ds)) + tail_after(suffix)) == {
            let joined = if suffix.len() > 0 {
                if p.len() > 0 {
                    p + newline() + suffix
                } else {
                    suffix
                }
            } else {
                p
            };
            if joined.len() > 0 {
                joined + newline()
            } else {
                joined
            }
        },
{
    lemma_block_text_shape(ds);
    lemma_shaped_fixed_point(p, block_text(ds), suffix);
}

/// What a repair gives, taken apart: the text before the old block, without
/// begin markers or trailing line feeds, the new block, and the text after it,
/// with no leading line feed.
proof fn lemma_repair_shape(current: Seq<char>, b: Seq<char>) -> (r: (Seq<char>, Seq<char>))
    ensures
        no_begin_marker(r.0),
        r.0.len() == 0 || r.0.last() != '\n',
        r.1.len() == 0 || r.1[0] != '\n',
        spec_replace_managed_block(current, b) == join_block(r.0, b) + tail_after(r.1),
        find(current, begin_marker()) is None ==> r.0 == trim_end_char(current, '\n')
            && r.1.len() == 0,
{
    crate::text::lemma_find_result(current, begin_marker());
    match find(current, begin_marker()) {
        None => {
            let p = trim_end_char(current, '\n');
            crate::text::lemma_trim_end_char_shape(current, '\n');
            let k = choose|k: int|
                0 <= k <= current.len() && trim_end_char(current, '\n') == current.take(k)
                    && forall|j: int| k <= j < current.len() ==> #[trigger] current[j] == '\n';
            assert forall|j: int| !occurs_at(p, begin_marker(), j) by {
                if occurs_at(p, begin_marker(), j) {
                    assert(current =~= p + current.skip(k));
                    lemma_extend_occurrence(p, current.skip(k), begin_marker(), j);
                }
            }
            assert(join_block(p, b) + tail_after(Seq::empty()) =~= join_block(p, b));
            (p, Seq::empty())
        },
        Some(bi) => {
            let head = current.take(bi);
            let p = trim_end_char(head, '\n');
            crate::text::lemma_trim_end_char_shape(head, '\n');
            let k = choose|k: int|
                0 <= k <= head.len() && trim_end_char(head, '\n') == head.take(k) && forall|j: int|
                    k <= j < head.len() ==> #[trigger] head[j] == '\n';
            assert forall|j: int| !occurs_at(p, begin_marker(), j) by {
                if occurs_at(p, begin_marker(), j) {
                    assert(current =~= p + current.skip(k));
                    lemma_extend_occurrence(p, current.skip(k), begin_marker(), j);
                    assert(j < bi);
                }
            }
            match block_end(current, bi) {
                None => {
                    assert(join_block(p, b) + tail_after(Seq::empty()) =~= join_block(p, b));
                    (p, Seq::empty())
                },
                Some(e) => {
                    let suffix = trim_start_char(current.skip(suffix_start(current, e)), '\n');
                    crate::text::lemma_trim_start_char_shape(
                        current.skip(suffix_start(current, e)),
                        '\n',
                    );
                    (p, suffix)
                },
            }
        },
    }
}

/// Whether `b` has the shape of a managed block: it opens with the begin
/// marker, ends with the end marker and a line feed, and holds no other end
/// marker.
pub open spec fn managed_block_shape(b: Seq<char>) -> bool {
    &&& b.len() >= begin_marker().len() + end_marker().len() + 1
    &&& b.take(begin_marker().len() as int) == begin_marker()
    &&& b.skip(b.len() - end_marker().len() - 1) == end_marker() + newline()
    &&& forall|j: int| 0 <= j < b.len() - end_marker().len() - 1 ==> !occurs_at(b, end_marker(), j)
}

/// In a block of that shape, followed by anything, the first end marker is
/// the one that closes the block.
proof fn lemma_end_in_shaped_block(b: Seq<char>, t: Seq<char>)
    requires
        managed_block_shape(b),
    ensures
        find(b + t, end_marker()) == Some(b.len() - 24),
{
    let m = end_marker();
    let out = b + t;
    let q: int = b.len() - 24;
    assert(out.subrange(q, q + 23) =~= m) by {
        assert forall|k: int| 0 <= k < 23 implies out.subrange(q, q + 23)[k] == m[k] by {
            assert(out[q + k] == b[q + k]);
            assert(b.skip(q)[k] == (m + newline())[k]);
        }
    }
    assert forall|j: int| 0 <= j < q implies !occurs_at(out, m, j) by {
        if occurs_at(out, m, j) {
            lemma_prefix_occurrence(b, t, m, j);
        }
    }
    crate::text::lemma_find_first(out, m, q);
}

/// A block of that shape put after `p` and followed by `suffix` is put back
/// unchanged by a repair with the same block, and removing it leaves `p`
/// and `suffix` joined by a line feed.
proof fn lemma_shaped_fixed_point(p: Seq<char>, b: Seq<char>, suffix: Seq<char>)
    requires
        no_begin_marker(p),
        p.len() == 0 || p.last() != '\n',
        managed_block_shape(b),
        suffix.len() == 0 || suffix[0] != '\n',
    ensures
        spec_replace_managed_block(join_block(p, b) + tail_after(suffix), b) == join_block(p, b)
            + tail_after(suffix),
        spec_managed_block_present(join_block(p, b) + tail_after(suffix)),
        spec_remove_managed_block(join_block(p, b) + tail_after(suffix)) == {
            let joined = if suffix.len() > 0 {
                if p.len() > 0 {
                    p + newline() + suffix
                } else {
                    suffix
                }
            } else {
                p
            };
            if joined.len() > 0 {
                joined + newline()
            } else {
                joined
            }
        },
{
    let t = tail_after(suffix);
    let j = join_block(p, b);
    let out = j + t;
    lemma_begin_in_joined(p, b, t);
    let b2: int = if p.len() == 0 {
        0int
    } else {
        p.len() + 2int
    };
    assert(out.skip(b2) =~= b + t);
    lemma_end_in_shaped_block(b, t);
    let e = b2 + b.len() - 1;
    assert(block_end(out, b2) == Some(e));
    let x = out.skip(e);
    assert(b.skip(b.len() - 24)[23] == (end_marker() + newline())[23]);
    assert(x[0] == '\n');
    assert(x.subrange(0, 1) =~= newline());
    crate::text::lemma_find_first(x, newline(), 0);
    assert(suffix_start(out, e) == j.len());
    assert(out.skip(j.len() as int) =~= t);
    if suffix.len() > 0 {
        crate::text::lemma_trim_start_char_at(t, '\n', 1);
        assert(t.skip(1) =~= suffix);
    } else {
        assert(t =~= Seq::<char>::empty());
    }
    assert(trim_start_char(t, '\n') == suffix);
    if p.len() == 0 {
        assert(out.take(b2) =~= Seq::<char>::empty());
    } else {
        assert(out.take(b2) =~= p + seq!['\n', '\n']);
        crate::text::lemma_trim_end_char_at(p + seq!['\n', '\n'], '\n', p.len() as int);
        assert((p + seq!['\n', '\n']).take(p.len() as int) =~= p);
    }
    assert(trim_end_char(out.take(b2), '\n') == p);
}

/// Whether `d` is a host name that the pattern puts in the hosts file as a
/// domain pattern: its normalized domain, or that domain with "www.".
pub open spec fn names_host(p: RulePattern, d: Seq<char>) -> bool {
    &&& p.kind == RulePatternKind::Domain
    &&& (d == normalized_domain(p.value@) || d == www_prefix() + normalized_domain(p.value@))
}

/// Whether a domain pattern of an enabled Tier 1 site list of `rules` puts
/// the host name `d` in the hosts file.
pub open spec fn comes_from_enabled_tier1(rules: Seq<RuleConfig>, d: Seq<char>) -> bool {
    exists|i: int, j: int|
        0 <= i < rules.len() && enabled_tier1(rules, i) && 0 <= j < rules[i].patterns@.len() && names_host(
            #[trigger] rules[i].patterns@[j],
            d,
        )
}

/// Whether the `i`-th site list is an enabled Tier 1 list.
pub open spec fn enabled_tier1(rules: Seq<RuleConfig>, i: int) -> bool {
    rules[i].tier == RuleTier::Hard && rules[i].enabled
}

proof fn lemma_patterns_domains_source(ps: Seq<RulePattern>, d: Seq<char>)
    requires
        patterns_domains(ps).contains(d),
    ensures
        exists|j: int| 0 <= j < ps.len() && names_host(#[trigger] ps[j], d),
    decreases ps.len(),
{
    let rest = ps.drop_last();
    if pattern_domains(ps.last()).contains(d) {
        assert(names_host(ps[ps.len() - 1], d));
    } else {
        lemma_patterns_domains_source(rest, d);
        let j = choose|j: int| 0 <= j < rest.len() && names_host(#[trigger] rest[j], d);
        assert(ps[j] == rest[j]);
    }
}

proof fn lemma_rules_domains_source(rules: Seq<RuleConfig>, d: Seq<char>)
    requires
        rules_domains(rules).contains(d),
    ensures
        exists|i: int, j: int|
            0 <= i < rules.len() && enabled_tier1(rules, i) && 0 <= j < rules[i].patterns@.len() && names_host(
                #[trigger] rules[i].patterns@[j],
                d,
            ),
    decreases rules.len(),
{
    let rest = rules.drop_last();
    let n = rules.len() - 1;
    if rules.last().tier == RuleTier::Hard && rules.last().enabled && patterns_domains(
        rules.last().patterns@,
    ).contains(d) {
        lemma_patterns_domains_source(rules.last().patterns@, d);
        let j = choose|j: int| 0 <= j < rules.last().patterns@.len() && names_host(#[trigger] rules.last().patterns@[j], d);
        assert(rules[n] == rules.last());
        assert(names_host(rules[n].patterns@[j], d));
    } else {
        lemma_rules_domains_source(rest, d);
        let (i, j) = choose|i: int, j: int|
            0 <= i < rest.len() && enabled_tier1(rest, i) && 0 <= j < rest[i].patterns@.len() && names_host(
                #[trigger] rest[i].patterns@[j],
                d,
            );
        assert(rules[i] == rest[i]);
        assert(names_host(rules[i].patterns@[j], d));
    }
}

proof fn lemma_patterns_domains_complete(ps: Seq<RulePattern>, j: int)
    requires
        0 <= j < ps.len(),
    ensures
        patterns_domains(ps).contains(normalized_domain(ps[j].value@)) || pattern_domains(ps[j]).len() == 0,
        pattern_domains(ps[j]).subset_of(patterns_domains(ps)),
    decreases ps.len(),
{
    if j < ps.len() - 1 {
        lemma_patterns_domains_complete(ps.drop_last(), j);
        assert(ps.drop_last()[j] == ps[j]);
    } else {
        assert(ps.last() == ps[j]);
    }
    let d = normalized_domain(ps[j].value@);
    if pattern_domains(ps[j]).len() != 0 {
        if ps[j].kind != RulePatternKind::Domain || d.len() == 0 {
            assert(pattern_domains(ps[j]) =~= Set::empty());
        }
        assert(pattern_domains(ps[j]).contains(d));
    }
}

proof fn lemma_rules_domains_complete(rules: Seq<RuleConfig>, i: int)
    requires
        0 <= i < rules.len(),
        enabled_tier1(rules, i),
    ensures
        patterns_domains(rules[i].patterns@).subset_of(rules_domains(rules)),
    decreases rules.len(),
{
    if i < rules.len() - 1 {
        lemma_rules_domains_complete(rules.drop_last(), i);
        assert(rules.drop_last()[i] == rules[i]);
    } else {
        assert(rules.last() == rules[i]);
    }
}

proof fn lemma_sorted_domains_source(rules: Seq<RuleConfig>)
    ensures
        forall|k: int|
            #![trigger sorted_domains(rules)[k]]
            0 <= k < sorted_domains(rules).len() ==> comes_from_enabled_tier1(rules, sorted_domains(rules)[k]),
{
    lemma_sorted_domains(rules);
    assert forall|k: int|
        #![trigger sorted_domains(rules)[k]]
        0 <= k < sorted_domains(rules).len() implies comes_from_enabled_tier1(rules, sorted_domains(rules)[k]) by {
        let d = sorted_domains(rules)[k];
        assert(sorted_domains(rules).to_set().contains(d));
        lemma_rules_domains_source(rules, d);
    }
}

/// Law: only enabled Tier 1 site lists reach the hosts file. Each host name
/// of the managed block is the normalized domain of a domain pattern of an
/// enabled Tier 1 list, or that domain with "www."; each non-empty domain
/// of such a pattern is there, with its "www." form when the pattern
/// covers subdomains; and a policy without an enabled Tier 1 list gets the
/// empty block, however its other lists are scheduled.
pub proof fn law_managed_hosts_come_from_enabled_tier1_lists(rules: Seq<RuleConfig>)
    ensures
        forall|k: int|
            #![trigger sorted_domains(rules)[k]]
            0 <= k < sorted_domains(rules).len() ==> comes_from_enabled_tier1(rules, sorted_domains(rules)[k]),
        forall|i: int, j: int|
            0 <= i < rules.len() && enabled_tier1(rules, i) && 0 <= j < rules[i].patterns@.len() && (
            #[trigger] rules[i].patterns@[j]).kind == RulePatternKind::Domain && normalized_domain(
                rules[i].patterns@[j].value@,
            ).len() > 0 ==> {
                &&& sorted_domains(rules).contains(normalized_domain(rules[i].patterns@[j].value@))
                &&& (rules[i].patterns@[j].match_subdomains && !has_prefix(
                    normalized_domain(rules[i].patterns@[j].value@),
                    www_prefix(),
                )) ==> sorted_domains(rules).contains(
                    www_prefix() + normalized_domain(rules[i].patterns@[j].value@),
                )
            },
        (forall|i: int| 0 <= i < rules.len() ==> !enabled_tier1(rules, i)) ==> sorted_domains(rules)
            =~= Seq::<Seq<char>>::empty(),
{
    lemma_sorted_domains(rules);
    let s = sorted_domains(rules);
    lemma_sorted_domains_source(rules);
    assert forall|i: int, j: int|
        0 <= i < rules.len() && enabled_tier1(rules, i) && 0 <= j < rules[i].patterns@.len() && (
        #[trigger] rules[i].patterns@[j]).kind == RulePatternKind::Domain && normalized_domain(
            rules[i].patterns@[j].value@,
        ).len() > 0 implies {
            &&& s.contains(normalized_domain(rules[i].patterns@[j].value@))
            &&& (rules[i].patterns@[j].match_subdomains && !has_prefix(
                normalized_domain(rules[i].patterns@[j].value@),
                www_prefix(),
            )) ==> s.contains(www_prefix() + normalized_domain(rules[i].patterns@[j].value@))
        } by {
        let p = rules[i].patterns@[j];
        let d = normalized_domain(p.value@);
        lemma_patterns_domains_complete(rules[i].patterns@, j);
        lemma_rules_domains_complete(rules, i);
        assert(pattern_domains(p).contains(d));
        assert(rules_domains(rules).contains(d));
        assert(s.to_set().contains(d));
        if p.match_subdomains && !has_prefix(d, www_prefix()) {
            assert(pattern_domains(p).contains(www_prefix() + d));
            assert(rules_domains(rules).contains(www_prefix() + d));
            assert(s.to_set().contains(www_prefix() + d));
        }
    }
    if forall|i: int| 0 <= i < rules.len() ==> !enabled_tier1(rules, i) {
        if s.len() > 0 {
            assert(s.to_set().contains(s[0]));
            lemma_rules_domains_source(rules, s[0]);
        }
    }
}

/// Law: putting a block of the managed shape in place twice gives what
/// putting it in place once gives, whatever the hosts file held.
pub proof fn law_replacing_a_shaped_block_is_idempotent(current: Seq<char>, b: Seq<char>)
    requires
        managed_block_shape(b),
    ensures
        spec_replace_managed_block(spec_replace_managed_block(current, b), b)
            == spec_replace_managed_block(current, b),
{
    let (p, suffix) = lemma_repair_shape(current, b);
    lemma_shaped_fixed_point(p, b, suffix);
}

/// Law: putting a block of the managed shape into a hosts file that has
/// none and then removing it gives back the file's own lines, ended by one
/// line feed (nothing, for a file of line feeds only).
pub proof fn law_removing_a_shaped_block_restores_the_file(current: Seq<char>, b: Seq<char>)
    requires
        managed_block_shape(b),
        find(current, begin_marker()) is None,
    ensures
        spec_remove_managed_block(spec_replace_managed_block(current, b)) == (if trim_end_char(
            current,
            '\n',
        ).len() > 0 {
            trim_end_char(current, '\n') + newline()
        } else {
            Seq::empty()
        }),
{
    let (p, suffix) = lemma_repair_shape(current, b);
    lemma_shaped_fixed_point(p, b, suffix);
}

/// Law: the block rendered for a policy has the managed shape, so the laws
/// on blocks of that shape hold for it.
pub proof fn law_rendered_block_has_managed_shape(config: PolicyConfig)
    ensures
        managed_block_shape(block_text(sorted_domains(config.rules@))),
{
    lemma_sorted_domains(config.rules@);
    lemma_block_text_shape(sorted_domains(config.rules@));
}

/// Law: repairing the hosts file twice gives what repairing it once gives,
/// so a second repair finds it compliant.
pub proof fn law_repair_is_idempotent(current: Seq<char>, config: PolicyConfig)
    ensures
        expected_hosts(expected_hosts(current, config), config) == expected_hosts(current, config),
        hosts_compliant(expected_hosts(current, config), config),
{
    let ds = sorted_domains(config.rules@);
    lemma_sorted_domains(config.rules@);
    let (p, suffix) = lemma_repair_shape(current, block_text(ds));
    lemma_replace_fixed_point(p, ds, suffix);
}

/// Law: after a repair the hosts file holds a managed block.
pub proof fn law_repair_leaves_block(current: Seq<char>, config: PolicyConfig)
    ensures
        spec_managed_block_present(expected_hosts(current, config)),
{
    let ds = sorted_domains(config.rules@);
    lemma_sorted_domains(config.rules@);
    let (p, suffix) = lemma_repair_shape(current, block_text(ds));
    lemma_replace_fixed_point(p, ds, suffix);
}

/// Law: removing the managed block that a repair added to a hosts file
/// without one gives back the file's own lines, ended by one line feed; the
/// result holds no managed block, so a second removal leaves it as it is.
pub proof fn law_removal_restores_user_lines(current: Seq<char>, config: PolicyConfig)
    requires
        find(current, begin_marker()) is None,
    ensures
        spec_remove_managed_block(expected_hosts(current, config)) == (if trim_end_char(
            current,
            '\n',
        ).len() > 0 {
            trim_end_char(current, '\n') + newline()
        } else {
            Seq::empty()
        }),
        spec_remove_managed_block(spec_remove_managed_block(expected_hosts(current, config)))
            == spec_remove_managed_block(expected_hosts(current, config)),
{
    let ds = sorted_domains(config.rules@);
    lemma_sorted_domains(config.rules@);
    let (p, suffix) = lemma_repair_shape(current, block_text(ds));
    lemma_replace_fixed_point(p, ds, suffix);
    let r = spec_remove_managed_block(expected_hosts(current, config));
    assert forall|j: int| !occurs_at(r, begin_marker(), j) by {
        if occurs_at(r, begin_marker(), j) {
            if p.len() > 0 {
                if j + 25 <= p.len() {
                    lemma_prefix_occurrence(p, newline(), begin_marker(), j);
                } else {
                    lemma_char_of_occurrence(r, begin_marker(), j, p.len() - j);
                    assert(r[p.len() as int] == '\n');
                    assert(forall|k: int| 0 <= k < 25 ==> begin_marker()[k] != '\n');
                }
            }
        }
    }
    crate::text::lemma_find_result(r, begin_marker());
}

/// Law: a hosts file without a begin marker is left as it is by removal.
pub proof fn law_removal_without_block_is_identity(current: Seq<char>)
    requires
        find(current, begin_marker()) is None,
    ensures
        spec_remove_managed_block(current) == current,
{
}

/// The name of a repair outcome, as `Debug` writes it.
pub open spec fn spec_repair_status_name(status: HostsRepairStatus) -> Seq<char> {
    match status {
        HostsRepairStatus::AlreadyCompliant => "AlreadyCompliant"@,
        HostsRepairStatus::Repaired => "Repaired"@,
        HostsRepairStatus::SkippedStopped => "SkippedStopped"@,
    }
}

/// The note that a hosts repair adds to an audit detail: `;hosts=` and the
/// outcome, or nothing when the hosts file was not repaired.
pub fn hosts_repair_detail(status: Option<HostsRepairStatus>) -> (r: String)
    ensures
        r@ == match status {
            Some(s) => ";hosts="@ + spec_repair_status_name(s),
            None => Seq::empty(),
        },
{
    proof {
        reveal_strlit("");
    }
    match status {
        Some(s) => {
            let name = match s {
                HostsRepairStatus::AlreadyCompliant => "AlreadyCompliant",
                HostsRepairStatus::Repaired => "Repaired",
                HostsRepairStatus::SkippedStopped => "SkippedStopped",
            };
            crate::strings::concat3(";hosts=", name, "")
        },
        None => crate::strings::owned(""),
    }
}

/// What a failed attribute command printed, trimmed: its output and its
/// error output, whichever are not blank, joined by "; ".
pub open spec fn command_detail(stdout: Seq<char>, stderr: Seq<char>) -> Seq<char> {
    let out = crate::text::trim(stdout);
    let err = crate::text::trim(stderr);
    if out.len() > 0 && err.len() > 0 {
        out + "; "@ + err
    } else if out.len() > 0 {
        out
    } else {
        err
    }
}

/// The message for a failed `chattr` or `lsattr` run: the command, its
/// arguments and the path, how it exited, and what it printed, if anything.
pub open spec fn spec_command_error(
    command: Seq<char>,
    args: Seq<Seq<char>>,
    path: Seq<char>,
    status: Seq<char>,
    stdout: Seq<char>,
    stderr: Seq<char>,
) -> Seq<char> {
    let head = command + " "@ + crate::text::join(args, " "@) + " "@ + path + " exited with "@ + status;
    if command_detail(stdout, stderr).len() == 0 {
        head
    } else {
        head + ": "@ + command_detail(stdout, stderr)
    }
}

/// The message for a failed attribute command, given its exit status as
/// text and what it printed.
pub fn command_error(
    command: &str,
    args: &[String],
    path: &str,
    status: &str,
    stdout: &str,
    stderr: &str,
) -> (r: String)
    ensures
        r@ == spec_command_error(command@, string_views(args@), path@, status@, stdout@, stderr@),
{
    let out = crate::text::trim_chars(chars_of(stdout).as_slice());
    let err = crate::text::trim_chars(chars_of(stderr).as_slice());
    let mut detail: Vec<char> = Vec::new();
    append_chars(&mut detail, out.as_slice());
    if out.len() > 0 && err.len() > 0 {
        append_chars(&mut detail, chars_of("; ").as_slice());
    }
    append_chars(&mut detail, err.as_slice());
    assert(detail@ =~= command_detail(stdout@, stderr@));
    let mut parts: Vec<Vec<char>> = Vec::new();
    let mut i: usize = 0;
    while i < args.len()
        invariant
            i <= args@.len(),
            parts@.len() == i,
            crate::text::views(parts@) == string_views(args@).take(i as int),
        decreases args@.len() - i,
    {
        let ghost prev = parts@;
        parts.push(chars_of(args[i].as_str()));
        assert(forall|q: int| 0 <= q < i ==> parts@[q] == prev[q]);
        assert(crate::text::views(parts@)[i as int] == string_views(args@)[i as int]);
        assert(crate::text::views(parts@) =~= string_views(args@).take(i + 1));
        i = i + 1;
    }
    assert(string_views(args@).take(args@.len() as int) =~= string_views(args@));
    let joined = crate::text::join_chars(parts.as_slice(), chars_of(" ").as_slice());
    let mut message = chars_of(command);
    append_chars(&mut message, chars_of(" ").as_slice());
    append_chars(&mut message, joined.as_slice());
    append_chars(&mut message, chars_of(" ").as_slice());
    append_chars(&mut message, chars_of(path).as_slice());
    append_chars(&mut message, chars_of(" exited with ").as_slice());
    append_chars(&mut message, chars_of(status).as_slice());
    if detail.len() > 0 {
        append_chars(&mut message, chars_of(": ").as_slice());
        append_chars(&mut message, detail.as_slice());
    }
    assert(message@ =~= spec_command_error(command@, string_views(args@), path@, status@, stdout@, stderr@));
    string_from_chars(message.as_slice())
}

} // verus!
