//! A request and how it is read from the text that a client sent.
use vstd::prelude::*;

use crate::frameworks_and_drivers::application_request::{
    view_request_data, ApplicationRequest, WordData,
};
use crate::frameworks_and_drivers::message::http_method::HttpMethod;
use crate::text::{
    chars_of, contains_char_in, find_char, find_char_in, lemma_find_char, parse_u32, parse_u32_in, trim,
    trim_bounds,
};

verus! {

pub struct HttpRequest {
    method: HttpMethod,
    path: String,
    data: Option<ApplicationRequest>,
}

pub struct RequestView {
    pub method: HttpMethod,
    pub path: Seq<char>,
    pub data: Option<WordData>,
}

impl View for HttpRequest {
    type V = RequestView;

    closed spec fn view(&self) -> RequestView {
        RequestView { method: self.method, path: self.path@, data: view_request_data(self.data) }
    }
}

/// The line that ends the header of a request.
pub open spec fn blank_line() -> Seq<char> {
    seq!['\r', '\n', '\r', '\n']
}

/// The position of the first blank line in `s`, or the length of `s` when
/// there is none.
pub open spec fn find_blank_line(s: Seq<char>) -> int
    decreases s.len(),
{
    if s.len() < 4 {
        s.len() as int
    } else if s.take(4) == blank_line() {
        0
    } else {
        1 + find_blank_line(s.drop_first())
    }
}

/// The first line of a request, without surrounding blanks.
pub open spec fn request_line(s: Seq<char>) -> Seq<char> {
    trim(s.take(find_char(s, '\n')))
}

/// The first word of a line.
pub open spec fn first_token(line: Seq<char>) -> Seq<char> {
    line.take(find_char(line, ' '))
}

/// What follows the first space of a line.
pub open spec fn after_first_token(line: Seq<char>) -> Seq<char> {
    if find_char(line, ' ') < line.len() {
        line.skip(find_char(line, ' ') + 1)
    } else {
        Seq::empty()
    }
}

pub open spec fn method_named(t: Seq<char>) -> Option<HttpMethod> {
    if t == seq!['G', 'E', 'T'] {
        Some(HttpMethod::Get)
    } else if t == seq!['P', 'O', 'S', 'T'] {
        Some(HttpMethod::Post)
    } else if t == seq!['P', 'U', 'T'] {
        Some(HttpMethod::Put)
    } else if t == seq!['D', 'E', 'L', 'E', 'T', 'E'] {
        Some(HttpMethod::Delete)
    } else {
        None
    }
}

/// The body of a request: what follows the first blank line.
pub open spec fn request_body(s: Seq<char>) -> Seq<char> {
    let h = find_blank_line(s);
    if h + 4 <= s.len() {
        s.skip(h + 4)
    } else {
        Seq::empty()
    }
}

/// An entry sent in a body as three lines: the word, the frequency in decimal,
/// and the translation, each without surrounding blanks. The word must not be
/// empty and must hold no `/` and no tab, so that a path can name it and a
/// stored line can give it back.
pub open spec fn parse_word_data(b: Seq<char>) -> Option<WordData> {
    let n1 = find_char(b, '\n');
    let r1 = b.skip(n1 + 1);
    let n2 = find_char(r1, '\n');
    let r2 = r1.skip(n2 + 1);
    let n3 = find_char(r2, '\n');
    let w = trim(b.take(n1));
    let f = parse_u32(trim(r1.take(n2)));
    let t = trim(r2.take(n3));
    if n1 >= b.len() || n2 >= r1.len() || w.len() == 0 || w.contains('/') || w.contains('\t') {
        None
    } else {
        match f {
            Some(x) => Some((w, x, t)),
            None => None,
        }
    }
}

/// What a request text reads as: the method and path of its first line, and
/// for `POST` and `PUT` the entry in its body. It reads as nothing where the
/// method is none of the four, or the path is empty.
pub open spec fn parse_request(s: Seq<char>) -> Option<RequestView> {
    let line = request_line(s);
    let rest = after_first_token(line);
    let path = rest.take(find_char(rest, ' '));
    match method_named(first_token(line)) {
        None => None,
        Some(m) => if path.len() == 0 {
            None
        } else {
            Some(
                RequestView {
                    method: m,
                    path,
                    data: if m == HttpMethod::Post || m == HttpMethod::Put {
                        parse_word_data(request_body(s))
                    } else {
                        None
                    },
                },
            )
        },
    }
}

proof fn lemma_find_blank_line_found(s: Seq<char>, i: int)
    requires
        0 <= i,
        i + 4 <= s.len(),
        s.subrange(i, i + 4) == blank_line(),
        forall|j: int| 0 <= j < i ==> #[trigger] s.subrange(j, j + 4) != blank_line(),
    ensures
        find_blank_line(s) == i,
    decreases i,
{
    assert(s.take(4) =~= s.subrange(0, 4));
    if i > 0 {
        let t = s.drop_first();
        assert forall|j: int| 0 <= j < i - 1 implies #[trigger] t.subrange(j, j + 4) != blank_line() by {
            assert(t.subrange(j, j + 4) =~= s.subrange(j + 1, j + 1 + 4));
        }
        assert(t.subrange(i - 1, i + 3) =~= s.subrange(i, i + 4));
        lemma_find_blank_line_found(t, i - 1);
        assert(s.subrange(0int, 0int + 4) != blank_line());
        assert(s.take(4) != blank_line());
    }
}

proof fn lemma_find_blank_line_absent(s: Seq<char>)
    requires
        forall|j: int| 0 <= j && j + 4 <= s.len() ==> #[trigger] s.subrange(j, j + 4) != blank_line(),
    ensures
        find_blank_line(s) == s.len(),
    decreases s.len(),
{
    if s.len() >= 4 {
        assert(s.take(4) =~= s.subrange(0, 4));
        let t = s.drop_first();
        assert forall|j: int| 0 <= j && j + 4 <= t.len() implies #[trigger] t.subrange(j, j + 4) != blank_line() by {
            assert(t.subrange(j, j + 4) =~= s.subrange(j + 1, j + 1 + 4));
        }
        lemma_find_blank_line_absent(t);
        assert(s.subrange(0int, 0int + 4) != blank_line());
        assert(s.take(4) != blank_line());
    }
}

/// Where the header of the request text `v` ends (its length where no blank
/// line ends it).
fn header_end(v: &Vec<char>) -> (r: usize)
    ensures
        r == find_blank_line(v@),
        r <= v.len(),
{
    let n = v.len();
    let mut i: usize = 0;
    while n >= 4 && i <= n - 4
        invariant
            n == v.len(),
            forall|j: int| 0 <= j < i ==> #[trigger] v@.subrange(j, j + 4) != blank_line(),
        decreases n - i,
    {
        if v[i] == '\r' && v[i + 1] == '\n' && v[i + 2] == '\r' && v[i + 3] == '\n' {
            proof {
                assert(v@.subrange(i as int, i + 4) =~= blank_line());
                lemma_find_blank_line_found(v@, i as int);
            }
            return i;
        }
        proof {
            let w = v@.subrange(i as int, i + 4);
            assert(w[0] == v@[i as int] && w[1] == v@[i + 1] && w[2] == v@[i + 2] && w[3] == v@[i + 3]);
            assert(w != blank_line());
        }
        i = i + 1;
    }
    proof {
        lemma_find_blank_line_absent(v@);
    }
    n
}

/// The method that `v[lo..hi]` names.
fn method_in(v: &Vec<char>, lo: usize, hi: usize) -> (r: Option<HttpMethod>)
    requires
        lo <= hi <= v.len(),
    ensures
        r == method_named(v@.subrange(lo as int, hi as int)),
{
    let ghost t = v@.subrange(lo as int, hi as int);
    let len = hi - lo;
    if len == 3 && v[lo] == 'G' && v[lo + 1] == 'E' && v[lo + 2] == 'T' {
        assert(t =~= seq!['G', 'E', 'T']);
        return Some(HttpMethod::Get);
    }
    proof {
        let g = seq!['G', 'E', 'T'];
        assert(g.len() == 3 && g[0] == 'G' && g[1] == 'E' && g[2] == 'T');
        if t == g {
            assert(t[0] == v@[lo + 0] && t[1] == v@[lo + 1] && t[2] == v@[lo + 2]);
            assert(false);
        }
    }
    if len == 4 && v[lo] == 'P' && v[lo + 1] == 'O' && v[lo + 2] == 'S' && v[lo + 3] == 'T' {
        assert(t =~= seq!['P', 'O', 'S', 'T']);
        return Some(HttpMethod::Post);
    }
    proof {
        let g = seq!['P', 'O', 'S', 'T'];
        assert(g.len() == 4 && g[0] == 'P' && g[1] == 'O' && g[2] == 'S' && g[3] == 'T');
        if t == g {
            assert(t[0] == v@[lo + 0] && t[1] == v@[lo + 1] && t[2] == v@[lo + 2] && t[3] == v@[lo + 3]);
            assert(false);
        }
    }
    if len == 3 && v[lo] == 'P' && v[lo + 1] == 'U' && v[lo + 2] == 'T' {
        assert(t =~= seq!['P', 'U', 'T']);
        return Some(HttpMethod::Put);
    }
    proof {
        let g = seq!['P', 'U', 'T'];
        assert(g.len() == 3 && g[0] == 'P' && g[1] == 'U' && g[2] == 'T');
        if t == g {
            assert(t[0] == v@[lo + 0] && t[1] == v@[lo + 1] && t[2] == v@[lo + 2]);
            assert(false);
        }
    }
    if len == 6 && v[lo] == 'D' && v[lo + 1] == 'E' && v[lo + 2] == 'L' && v[lo + 3] == 'E'
        && v[lo + 4] == 'T' && v[lo + 5] == 'E' {
        assert(t =~= seq!['D', 'E', 'L', 'E', 'T', 'E']);
        return Some(HttpMethod::Delete);
    }
    proof {
        let g = seq!['D', 'E', 'L', 'E', 'T', 'E'];
        assert(g.len() == 6 && g[0] == 'D' && g[1] == 'E' && g[2] == 'L' && g[3] == 'E' && g[4] == 'T' && g[5] == 'E');
        if t == g {
            assert(t[0] == v@[lo + 0] && t[1] == v@[lo + 1] && t[2] == v@[lo + 2] && t[3] == v@[lo + 3] && t[4] == v@[lo + 4] && t[5] == v@[lo + 5]);
            assert(false);
        }
    }
    None
}

/// Reads the entry in the body `text[bs..]`, whose characters are `v`.
fn word_data_in(text: &str, v: &Vec<char>, bs: usize) -> (r: Option<ApplicationRequest>)
    requires
        v@ == text@,
        bs <= v.len(),
    ensures
        view_request_data(r) == parse_word_data(v@.subrange(bs as int, v.len() as int)),
{
    let n = v.len();
    let ghost b = v@.subrange(bs as int, n as int);
    let n1 = find_char_in(v, bs, n, '\n');
    if n1 == n {
        return None;
    }
    let ghost r1 = b.skip(n1 - bs + 1);
    assert(r1 =~= v@.subrange(n1 + 1, n as int));
    let n2 = find_char_in(v, n1 + 1, n, '\n');
    if n2 == n {
        return None;
    }
    let ghost r2 = r1.skip(n2 - n1);
    assert(r2 =~= v@.subrange(n2 + 1, n as int));
    let n3 = find_char_in(v, n2 + 1, n, '\n');
    assert(b.take(n1 - bs) =~= v@.subrange(bs as int, n1 as int));
    assert(r1.take(n2 - n1 - 1) =~= v@.subrange(n1 + 1, n2 as int));
    assert(r2.take(n3 - n2 - 1) =~= v@.subrange(n2 + 1, n3 as int));
    let (w0, w1) = trim_bounds(v, bs, n1);
    if w0 == w1 || contains_char_in(v, w0, w1, '/') || contains_char_in(v, w0, w1, '\t') {
        return None;
    }
    let (f0, f1) = trim_bounds(v, n1 + 1, n2);
    let (t0, t1) = trim_bounds(v, n2 + 1, n3);
    match parse_u32_in(v, f0, f1) {
        Some(frequency) => {
            let word = text.substring_char(w0, w1).to_owned();
            let translation = text.substring_char(t0, t1).to_owned();
            Some(ApplicationRequest::Word((word, frequency, translation)))
        },
        None => None,
    }
}

impl HttpRequest {
    pub fn new(method: HttpMethod, path: String, data: Option<ApplicationRequest>) -> (r: HttpRequest)
        ensures
            r@ == (RequestView { method, path: path@, data: view_request_data(data) }),
    {
        HttpRequest { method, path, data }
    }

    /// Reads a request from the text a client sent; `None` where the text is
    /// no request the dictionary answers.
    pub fn from_text(text: &str) -> (r: Option<HttpRequest>)
        ensures
            match r {
                Some(req) => parse_request(text@) == Some(req@),
                None => parse_request(text@) is None,
            },
    {
        let v = chars_of(text);
        let n = v.len();
        let ghost s = v@;
        assert(s.subrange(0, n as int) =~= s);
        let le = find_char_in(&v, 0, n, '\n');
        assert(s.take(find_char(s, '\n')) =~= s.subrange(0, le as int));
        let (a, b) = trim_bounds(&v, 0, le);
        let ghost line = s.subrange(a as int, b as int);
        let sp = find_char_in(&v, a, b, ' ');
        assert(line.take(sp - a) =~= s.subrange(a as int, sp as int));
        let method = method_in(&v, a, sp);
        let (ps, pe) = if sp < b {
            let ps = sp + 1;
            assert(after_first_token(line) =~= s.subrange(ps as int, b as int));
            let pe = find_char_in(&v, ps, b, ' ');
            (ps, pe)
        } else {
            assert(after_first_token(line) =~= Seq::<char>::empty());
            assert(s.subrange(b as int, b as int) =~= Seq::<char>::empty());
            (b, b)
        };
        assert(after_first_token(line).take(find_char(after_first_token(line), ' ')) =~= s.subrange(ps as int, pe as int));
        let m = match method {
            Some(m) => m,
            None => {
                return None;
            },
        };
        if ps == pe {
            return None;
        }
        let path = text.substring_char(ps, pe).to_owned();
        let data = match m {
            HttpMethod::Post | HttpMethod::Put => {
                let h = header_end(&v);
                if n >= 4 && h <= n - 4 {
                    assert(request_body(s) =~= s.subrange(h + 4, n as int));
                    word_data_in(text, &v, h + 4)
                } else {
                    assert(request_body(s) =~= s.subrange(n as int, n as int));
                    word_data_in(text, &v, n)
                }
            },
            _ => None,
        };
        Some(HttpRequest { method: m, path, data })
    }

    pub fn get_method(&self) -> (r: HttpMethod)
        ensures
            r == self@.method,
    {
        self.method
    }

    pub fn get_path(&self) -> (r: &str)
        ensures
            r@ == self@.path,
    {
        self.path.as_str()
    }

    pub fn get_data(&self) -> (r: &Option<ApplicationRequest>)
        ensures
            view_request_data(*r) == self@.data,
    {
        &self.data
    }
}

/// A body of three lines (and maybe more after a line break) reads as the
/// entry of the first line without surrounding blanks, the number of the
/// second, and the third line without surrounding blanks, whatever characters
/// the third holds, wherever the word is not empty and holds no `/` and no tab.
pub proof fn law_three_line_body(
    word_line: Seq<char>,
    frequency_line: Seq<char>,
    translation_line: Seq<char>,
    rest: Seq<char>,
    f: u32,
)
    requires
        !word_line.contains('\n'),
        !frequency_line.contains('\n'),
        !translation_line.contains('\n'),
        rest.len() == 0 || rest[0] == '\n',
        trim(word_line).len() > 0,
        !trim(word_line).contains('/'),
        !trim(word_line).contains('\t'),
        parse_u32(trim(frequency_line)) == Some(f),
    ensures
        parse_word_data(word_line + seq!['\n'] + frequency_line + seq!['\n'] + translation_line + rest)
            == Some((trim(word_line), f, trim(translation_line))),
{
    let b = word_line + seq!['\n'] + frequency_line + seq!['\n'] + translation_line + rest;
    let k1 = word_line.len() as int;
    assert forall|j: int| 0 <= j < k1 implies b[j] != '\n' by {
        assert(b[j] == word_line[j]);
    }
    assert(b[k1] == '\n');
    lemma_find_char(b, '\n', k1);
    assert(b.take(k1) =~= word_line);
    let r1 = b.skip(k1 + 1);
    assert(r1 =~= frequency_line + seq!['\n'] + translation_line + rest);
    let k2 = frequency_line.len() as int;
    assert forall|j: int| 0 <= j < k2 implies r1[j] != '\n' by {
        assert(r1[j] == frequency_line[j]);
    }
    assert(r1[k2] == '\n');
    lemma_find_char(r1, '\n', k2);
    assert(r1.take(k2) =~= frequency_line);
    let r2 = r1.skip(k2 + 1);
    assert(r2 =~= translation_line + rest);
    let k3 = translation_line.len() as int;
    assert forall|j: int| 0 <= j < k3 implies r2[j] != '\n' by {
        assert(r2[j] == translation_line[j]);
    }
    if k3 < r2.len() {
        assert(r2[k3] == rest[0]);
    }
    lemma_find_char(r2, '\n', k3);
    assert(r2.take(k3) =~= translation_line);
}

} // verus!
