//! The dashboard token file: `key=value` lines that the agent writes once
//! its web dashboard is up, and the decisions taken while waiting for it.

use vstd::prelude::*;
use vstd::string::{StrSliceExecFns, StringExecFns};
use crate::text::{
    lemma_lines_from_split, lemma_lines_one, lines, lines_from, range_starts_with, split_lines, starts_with, str_chars, strip_cr, trim,
    trim_end, trim_range, trim_start, white_space,
};

verus! {

/// Where the dashboard listens and the token that opens it.
#[derive(Debug, Clone)]
pub struct DashboardInfo {
    pub url: String,
    pub token: String,
}

/// The key of the line that carries the dashboard URL.
pub open spec fn url_key() -> Seq<char> {
    seq!['u', 'r', 'l', '=']
}

/// The key of the line that carries the access token.
pub open spec fn token_key() -> Seq<char> {
    seq!['t', 'o', 'k', 'e', 'n', '=']
}

/// The value of the last line in `ls` that starts with `key`: the rest of
/// that line, trimmed; `None` when no line starts with `key`.
pub open spec fn last_field(ls: Seq<Seq<char>>, key: Seq<char>) -> Option<Seq<char>>
    decreases ls.len(),
{
    if ls.len() == 0 {
        None
    } else if starts_with(ls.last(), key) {
        Some(trim(ls.last().skip(key.len() as int)))
    } else {
        last_field(ls.drop_last(), key)
    }
}

/// The field that `key` selects once the line `v[lo..hi]` has been read,
/// given the bounds `cur` of its value before that line.
fn read_field(v: &Vec<char>, lo: usize, hi: usize, key: &Vec<char>, cur: Option<(usize, usize)>) -> (r:
    Option<(usize, usize)>)
    requires
        lo <= hi <= v@.len(),
    ensures
        starts_with(v@.subrange(lo as int, hi as int), key@) ==> (r matches Some((a, b)) && a
            <= b <= v@.len() && v@.subrange(a as int, b as int) == trim(
            v@.subrange(lo as int, hi as int).skip(key@.len() as int),
        )),
        !starts_with(v@.subrange(lo as int, hi as int), key@) ==> r == cur,
{
    if range_starts_with(v, lo, hi, key) {
        let (a, b) = trim_range(v, lo + key.len(), hi);
        assert(v@.subrange(lo as int, hi as int).skip(key@.len() as int) =~= v@.subrange(
            lo + key@.len(),
            hi as int,
        ));
        Some((a, b))
    } else {
        cur
    }
}

/// Whether `r` holds the bounds in `v` of the field value `f`.
pub open spec fn holds_field(v: Seq<char>, r: Option<(usize, usize)>, f: Option<Seq<char>>) -> bool {
    match r {
        Some((a, b)) => a <= b <= v.len() && f == Some(v.subrange(a as int, b as int)),
        None => f is None,
    }
}

proof fn lemma_last_field_push(ls: Seq<Seq<char>>, l: Seq<char>, key: Seq<char>)
    ensures
        last_field(ls.push(l), key) == if starts_with(l, key) {
            Some(trim(l.skip(key.len() as int)))
        } else {
            last_field(ls, key)
        },
{
    assert(ls.push(l).drop_last() =~= ls);
}

/// Reads the token file: the dashboard URL from the last `url=` line and the
/// token from the last `token=` line, each trimmed; `None` unless both occur.
pub fn parse_token_file(s: &str) -> (res: Option<DashboardInfo>)
    ensures
        match res {
            Some(info) => token_file_info(s@) == Some((info.url@, info.token@)),
            None => token_file_info(s@) is None,
        },
{
    let v = str_chars(s);
    let bounds = split_lines(&v);
    let ghost ls = lines(v@);
    let ukey: Vec<char> = vec!['u', 'r', 'l', '='];
    let tkey: Vec<char> = vec!['t', 'o', 'k', 'e', 'n', '='];
    assert(ukey@ =~= url_key());
    assert(tkey@ =~= token_key());
    let mut url: Option<(usize, usize)> = None;
    let mut token: Option<(usize, usize)> = None;
    assert(ls.take(0) =~= Seq::<Seq<char>>::empty());
    for k in 0..bounds.len()
        invariant
            v@ == s@,
            ls == lines(v@),
            bounds@.len() == ls.len(),
            forall|i: int|
                0 <= i < bounds@.len() ==> (#[trigger] bounds@[i]).0 <= bounds@[i].1 <= v@.len()
                    && v@.subrange(bounds@[i].0 as int, bounds@[i].1 as int) == ls[i],
            ukey@ == url_key(),
            tkey@ == token_key(),
            holds_field(v@, url, last_field(ls.take(k as int), url_key())),
            holds_field(v@, token, last_field(ls.take(k as int), token_key())),
    {
        let (lo, hi) = bounds[k];
        url = read_field(&v, lo, hi, &ukey, url);
        token = read_field(&v, lo, hi, &tkey, token);
        proof {
            assert(ls.take(k + 1) =~= ls.take(k as int).push(ls[k as int]));
            lemma_last_field_push(ls.take(k as int), ls[k as int], url_key());
            lemma_last_field_push(ls.take(k as int), ls[k as int], token_key());
        }
    }
    assert(ls.take(bounds@.len() as int) =~= ls);
    match (url, token) {
        (Some((ua, ub)), Some((ta, tb))) => {
            let u = s.substring_char(ua, ub).to_owned();
            let t = s.substring_char(ta, tb).to_owned();
            Some(DashboardInfo { url: u, token: t })
        },
        _ => None,
    }
}

/// The URL and token that a token file yields, if it names both.
pub open spec fn token_file_info(s: Seq<char>) -> Option<(Seq<char>, Seq<char>)> {
    match (last_field(lines(s), url_key()), last_field(lines(s), token_key())) {
        (Some(u), Some(t)) => Some((u, t)),
        _ => None,
    }
}

/// What one look at the token file decides while waiting for the dashboard.
pub enum DashboardPoll {
    /// The file names the dashboard: it is up.
    Ready(DashboardInfo),
    /// The deadline has passed without it.
    TimedOut,
    /// Look again after a pause.
    Retry,
}

/// Decides on one look at the token file: `content` is the file's text when
/// it could be read, `past_deadline` whether waiting time is up. A file that
/// names URL and token wins even past the deadline.
pub fn poll_dashboard(content: Option<&str>, past_deadline: bool) -> (r: DashboardPoll)
    ensures
        match r {
            DashboardPoll::Ready(info) => content matches Some(c) && token_file_info(c@) == Some(
                (info.url@, info.token@),
            ),
            DashboardPoll::TimedOut => past_deadline && (content matches Some(c) ==> token_file_info(
                c@,
            ) is None),
            DashboardPoll::Retry => !past_deadline && (content matches Some(c) ==> token_file_info(
                c@,
            ) is None),
        },
{
    if let Some(c) = content {
        if let Some(info) = parse_token_file(c) {
            return DashboardPoll::Ready(info);
        }
    }
    if past_deadline {
        DashboardPoll::TimedOut
    } else {
        DashboardPoll::Retry
    }
}

/// The address of the chat page: the dashboard URL, `/chat?token=` and the token.
pub fn chat_url(info: &DashboardInfo) -> (u: String)
    ensures
        u@ == info.url@ + "/chat?token="@ + info.token@,
{
    let mut u = info.url.clone();
    u.append("/chat?token=");
    u.append(info.token.as_str());
    u
}

/// The token file the agent writes for a dashboard at `url` with `token`.
pub open spec fn token_file_text(url: Seq<char>, token: Seq<char>) -> Seq<char> {
    url_key() + url + seq!['\n'] + token_key() + token + seq!['\n']
}

/// A value that can stand in a token file line: no line break in it and no
/// white space around it.
pub open spec fn plain_value(v: Seq<char>) -> bool {
    &&& forall|i: int| 0 <= i < v.len() ==> #[trigger] v[i] != '\n'
    &&& trim(v) == v
}

proof fn lemma_lines_from_line(x: Seq<char>, rest: Seq<char>, cur: Seq<char>)
    requires
        forall|i: int| 0 <= i < x.len() ==> #[trigger] x[i] != '\n',
    ensures
        lines_from(x + seq!['\n'] + rest, cur) == seq![strip_cr(cur + x)] + lines_from(
            rest,
            Seq::empty(),
        ),
    decreases x.len(),
{
    let s = x + seq!['\n'] + rest;
    if x.len() == 0 {
        assert(s[0] == '\n');
        assert(s.drop_first() =~= rest);
        assert(cur + x =~= cur);
    } else {
        assert(s[0] == x[0]);
        let y = x.drop_first();
        assert(s.drop_first() =~= y + seq!['\n'] + rest);
        assert forall|i: int| 0 <= i < y.len() implies #[trigger] y[i] != '\n' by {
            assert(y[i] == x[i + 1]);
        }
        lemma_lines_from_line(y, rest, cur.push(x[0]));
        assert(cur.push(x[0]) + y =~= cur + x);
    }
}

proof fn lemma_plain_not_cr(key: Seq<char>, v: Seq<char>)
    requires
        key.len() > 0,
        key.last() != '\r',
        plain_value(v),
    ensures
        strip_cr(key + v) == key + v,
{
    if v.len() > 0 {
        if white_space(v.last()) {
            assert(trim_end(trim_start(v)) == v);
            lemma_trim_ws_ends(v);
        }
        assert((key + v).last() == v.last());
    } else {
        assert(key + v =~= key);
    }
}

proof fn lemma_trim_ws_ends(v: Seq<char>)
    requires
        v.len() > 0,
        trim(v) == v,
    ensures
        !white_space(v.last()),
        !white_space(v[0]),
{
    lemma_trim_shrinks(v);
}

proof fn lemma_trim_shrinks(v: Seq<char>)
    ensures
        v.len() > 0 && (white_space(v[0]) || white_space(v.last())) ==> trim(v).len() < v.len(),
{
    lemma_trim_start_len(v);
    lemma_trim_end_len(trim_start(v));
    if v.len() > 0 && !white_space(v[0]) && white_space(v.last()) {
        assert(trim_start(v) == v);
    }
}

proof fn lemma_trim_start_len(v: Seq<char>)
    ensures
        trim_start(v).len() <= v.len(),
        v.len() > 0 && white_space(v[0]) ==> trim_start(v).len() < v.len(),
    decreases v.len(),
{
    if v.len() > 0 && white_space(v[0]) {
        lemma_trim_start_len(v.drop_first());
    }
}

proof fn lemma_trim_end_len(v: Seq<char>)
    ensures
        trim_end(v).len() <= v.len(),
        v.len() > 0 && white_space(v.last()) ==> trim_end(v).len() < v.len(),
    decreases v.len(),
{
    if v.len() > 0 && white_space(v.last()) {
        lemma_trim_end_len(v.drop_last());
    }
}

/// What the agent writes is what the launcher reads: a token file with the
/// lines `url=<url>` and `token=<token>` yields exactly that URL and token,
/// for values without line breaks and without surrounding white space.
pub proof fn lemma_token_file_roundtrip(url: Seq<char>, token: Seq<char>)
    requires
        plain_value(url),
        plain_value(token),
    ensures
        token_file_info(token_file_text(url, token)) == Some((url, token)),
{
    let x1 = url_key() + url;
    let x2 = token_key() + token;
    assert forall|i: int| 0 <= i < x1.len() implies #[trigger] x1[i] != '\n' by {
        if i >= 4 {
            assert(x1[i] == url[i - 4]);
        }
    }
    assert forall|i: int| 0 <= i < x2.len() implies #[trigger] x2[i] != '\n' by {
        if i >= 6 {
            assert(x2[i] == token[i - 6]);
        }
    }
    let text = token_file_text(url, token);
    assert(text =~= x1 + seq!['\n'] + (x2 + seq!['\n'] + Seq::<char>::empty()));
    lemma_lines_from_line(x1, x2 + seq!['\n'] + Seq::<char>::empty(), Seq::empty());
    lemma_lines_from_line(x2, Seq::<char>::empty(), Seq::empty());
    assert(Seq::<char>::empty() + x1 =~= x1);
    assert(Seq::<char>::empty() + x2 =~= x2);
    lemma_plain_not_cr(url_key(), url);
    lemma_plain_not_cr(token_key(), token);
    let ls = lines(text);
    assert(ls =~= seq![x1, x2]);
    assert(x2.take(6) =~= token_key());
    assert(x2.skip(6) =~= token);
    assert(x1.take(4) =~= url_key());
    assert(x1.skip(4) =~= url);
    assert(x2[0] != url_key()[0]);
    assert(!starts_with(x2, url_key())) by {
        if starts_with(x2, url_key()) {
            assert(x2.take(4)[0] == x2[0]);
        }
    }
    assert(ls.drop_last() =~= seq![x1]);
    assert(ls.last() == x2);
    assert(starts_with(x2, token_key()));
    assert(last_field(ls, token_key()) == Some(trim(token)));
    assert(last_field(ls, url_key()) == last_field(seq![x1], url_key()));
    assert(seq![x1].last() == x1);
    assert(starts_with(x1, url_key()));
    assert(last_field(seq![x1], url_key()) == Some(trim(url)));
}

/// The last line for a key wins: after any text whose lines are ended, an
/// added `url=<url>` line sets the URL and keeps the token, and an added
/// `token=<token>` line sets the token and keeps the URL.
pub proof fn lemma_token_file_last_line_wins(a: Seq<char>, v: Seq<char>)
    requires
        plain_value(v),
    ensures
        last_field(lines(a + seq!['\n'] + url_key() + v + seq!['\n']), url_key()) == Some(v),
        last_field(lines(a + seq!['\n'] + url_key() + v + seq!['\n']), token_key()) == last_field(
            lines(a + seq!['\n']),
            token_key(),
        ),
        last_field(lines(a + seq!['\n'] + token_key() + v + seq!['\n']), token_key()) == Some(v),
        last_field(lines(a + seq!['\n'] + token_key() + v + seq!['\n']), url_key()) == last_field(
            lines(a + seq!['\n']),
            url_key(),
        ),
{
    lemma_added_line(a, url_key(), v);
    lemma_added_line(a, token_key(), v);
    let xu = url_key() + v;
    let xt = token_key() + v;
    assert(xu.take(4) =~= url_key());
    assert(xt.take(6) =~= token_key());
    assert(xu.skip(4) =~= v);
    assert(xt.skip(6) =~= v);
    assert(!starts_with(xt, url_key())) by {
        if starts_with(xt, url_key()) {
            assert(xt.take(4)[0] == xt[0]);
        }
    }
    assert(!starts_with(xu, token_key())) by {
        if starts_with(xu, token_key()) {
            assert(xu.take(6)[0] == xu[0]);
        }
    }
    lemma_last_field_push(lines(a + seq!['\n']), xu, url_key());
    lemma_last_field_push(lines(a + seq!['\n']), xu, token_key());
    lemma_last_field_push(lines(a + seq!['\n']), xt, url_key());
    lemma_last_field_push(lines(a + seq!['\n']), xt, token_key());
}

proof fn lemma_added_line(a: Seq<char>, key: Seq<char>, v: Seq<char>)
    requires
        plain_value(v),
        key.len() > 0,
        key.last() != '\r',
        forall|i: int| 0 <= i < key.len() ==> #[trigger] key[i] != '\n',
    ensures
        lines(a + seq!['\n'] + key + v + seq!['\n']) == lines(a + seq!['\n']).push(key + v),
{
    let x = key + v;
    assert forall|i: int| 0 <= i < x.len() implies #[trigger] x[i] != '\n' by {
        if i >= key.len() {
            assert(x[i] == v[i - key.len()]);
        } else {
            assert(x[i] == key[i]);
        }
    }
    assert(a + seq!['\n'] + key + v + seq!['\n'] =~= a + seq!['\n'] + (x + seq!['\n']));
    lemma_lines_from_split(a, x + seq!['\n'], Seq::empty());
    lemma_lines_one(x, Seq::empty());
    assert(Seq::<char>::empty() + x =~= x);
    lemma_plain_not_cr(key, v);
    assert(lines(a + seq!['\n']) + seq![x] =~= lines(a + seq!['\n']).push(x));
}

} // verus!
