//! Framing of a request: request line, headers and body, read straight off the
//! characters that arrived.

use vstd::prelude::*;
use crate::text::{
    chars_of, string_of, slice_of, find_char_exec, find_char_from, find_char, lemma_find_char_from,
    trim_exec, trim_white_space, trim_nul, chars_equal,
};

verus! {

/// The line that ends the header block.
pub open spec fn blank_line() -> Seq<char> {
    seq!['\r', '\n', '\r', '\n']
}

/// The first index at or after `i` where `pat` occurs in `s`.
pub open spec fn find_seq_from<A>(s: Seq<A>, pat: Seq<A>, i: int) -> Option<int>
    decreases s.len() - i,
{
    if i < 0 || i >= s.len() || i + pat.len() > s.len() {
        None
    } else if s.subrange(i, i + pat.len()) == pat {
        Some(i)
    } else {
        find_seq_from(s, pat, i + 1)
    }
}

pub proof fn lemma_find_seq_from<A>(s: Seq<A>, pat: Seq<A>, i: int)
    ensures
        match find_seq_from(s, pat, i) {
            Some(j) => i <= j && j + pat.len() <= s.len() && s.subrange(j, j + pat.len()) == pat,
            None => true,
        },
    decreases s.len() - i,
{
    if !(i < 0 || i >= s.len() || i + pat.len() > s.len()) && s.subrange(i, i + pat.len()) != pat {
        lemma_find_seq_from(s, pat, i + 1);
    }
}

pub proof fn lemma_body_start(req: Seq<char>)
    ensures
        0 <= body_start(req) <= req.len(),
{
    lemma_find_seq_from(req, blank_line(), 0);
}

/// Where the body begins: just past the first blank line, or at the end.
pub open spec fn body_start(req: Seq<char>) -> int {
    match find_seq_from(req, blank_line(), 0) {
        Some(i) => i + 4,
        None => req.len() as int,
    }
}

/// The body: what follows the blank line, without NUL padding, then without
/// white space, at either end.
pub open spec fn body_of(req: Seq<char>) -> Seq<char> {
    trim_white_space(trim_nul(req.subrange(body_start(req), req.len() as int)))
}

/// The request line: what precedes the first line feed (empty without one).
pub open spec fn request_line(req: Seq<char>) -> Seq<char> {
    match find_char(req, '\n') {
        Some(i) => req.subrange(0, i),
        None => seq![],
    }
}

/// The method: what precedes the first space of the request line (empty
/// without one).
pub open spec fn method_of(req: Seq<char>) -> Seq<char> {
    let line = request_line(req);
    match find_char(line, ' ') {
        Some(i) => line.subrange(0, i),
        None => seq![],
    }
}

/// The path: what lies between the first and the second space of the request
/// line (empty without both).
pub open spec fn path_of(req: Seq<char>) -> Seq<char> {
    let line = request_line(req);
    match find_char(line, ' ') {
        Some(i) => {
            let rest = line.subrange(i + 1, line.len() as int);
            match find_char(rest, ' ') {
                Some(j) => rest.subrange(0, j),
                None => seq![],
            }
        },
        None => seq![],
    }
}

/// The lines of `s` from index `i` on, split at line feeds; a line feed at the
/// very end opens no further line.
pub open spec fn lines_from(s: Seq<char>, i: int) -> Seq<Seq<char>>
    decreases s.len() - i,
{
    if i < 0 || i >= s.len() {
        seq![]
    } else {
        match find_char_from(s, '\n', i) {
            Some(j) => if i <= j < s.len() {
                seq![s.subrange(i, j)] + lines_from(s, j + 1)
            } else {
                seq![]
            },
            None => seq![s.subrange(i, s.len() as int)],
        }
    }
}

/// The lines of the header block after the request line.
pub open spec fn header_lines(req: Seq<char>) -> Seq<Seq<char>> {
    let head = req.subrange(0, body_start(req));
    match find_char(head, '\n') {
        Some(i) => lines_from(head, i + 1),
        None => seq![],
    }
}

/// A header line split at its first colon, both sides without white space.
pub open spec fn header_pair(line: Seq<char>) -> Option<(Seq<char>, Seq<char>)> {
    match find_char(line, ':') {
        Some(i) => Some(
            (
                trim_white_space(line.subrange(0, i)),
                trim_white_space(line.subrange(i + 1, line.len() as int)),
            ),
        ),
        None => None,
    }
}

/// The header pairs of the lines that hold a colon, in order.
pub open spec fn header_pairs(lines: Seq<Seq<char>>) -> Seq<(Seq<char>, Seq<char>)>
    decreases lines.len(),
{
    if lines.len() == 0 {
        seq![]
    } else {
        match header_pair(lines[0]) {
            Some(p) => seq![p] + header_pairs(lines.drop_first()),
            None => header_pairs(lines.drop_first()),
        }
    }
}

/// The value of the last pair named `key`: a later header overrides an earlier one.
pub open spec fn header_lookup(pairs: Seq<(Seq<char>, Seq<char>)>, key: Seq<char>) -> Option<
    Seq<char>,
>
    decreases pairs.len(),
{
    if pairs.len() == 0 {
        None
    } else if pairs.last().0 == key {
        Some(pairs.last().1)
    } else {
        header_lookup(pairs.drop_last(), key)
    }
}

/// The value of the header named `key` in the request.
pub open spec fn header_of(req: Seq<char>, key: Seq<char>) -> Option<Seq<char>> {
    header_lookup(header_pairs(header_lines(req)), key)
}

pub open spec fn pairs_view(v: Seq<(String, String)>) -> Seq<(Seq<char>, Seq<char>)> {
    v.map_values(|p: (String, String)| (p.0@, p.1@))
}

/// A request taken apart.
pub struct Request {
    pub method: String,
    pub path: String,
    /// Header names and values, in the order they came.
    pub headers: Vec<(String, String)>,
    pub body: String,
}

fn find_blank_line(v: &Vec<char>) -> (r: Option<usize>)
    ensures
        match r {
            Some(i) => find_seq_from(v@, blank_line(), 0) == Some(i as int) && i + 4 <= v@.len(),
            None => find_seq_from(v@, blank_line(), 0) is None,
        },
{
    let n = v.len();
    let mut i: usize = 0;
    while n >= 4 && i <= n - 4
        invariant
            n == v@.len(),
            find_seq_from(v@, blank_line(), 0) == find_seq_from(v@, blank_line(), i as int),
        decreases n - i,
    {
        if v[i] == '\r' && v[i + 1] == '\n' && v[i + 2] == '\r' && v[i + 3] == '\n' {
            assert(v@.subrange(i as int, i + 4) =~= blank_line());
            return Some(i);
        }
        assert(v@.subrange(i as int, i + 4) != blank_line()) by {
            if v@.subrange(i as int, i + 4) == blank_line() {
                assert(v@.subrange(i as int, i + 4)[0] == v@[i as int]);
                assert(v@.subrange(i as int, i + 4)[1] == v@[i + 1]);
                assert(v@.subrange(i as int, i + 4)[2] == v@[i + 2]);
                assert(v@.subrange(i as int, i + 4)[3] == v@[i + 3]);
            }
        }
        i = i + 1;
    }
    None
}

fn header_pair_exec(line: &Vec<char>) -> (r: Option<(String, String)>)
    ensures
        match r {
            Some(p) => header_pair(line@) == Some((p.0@, p.1@)),
            None => header_pair(line@) is None,
        },
{
    match find_char_exec(line, ':', 0) {
        Some(i) => {
            proof {
                lemma_find_char_from(line@, ':', 0);
            }
            let ln = line.len();
            assert(i < ln);
            let key = trim_exec(&slice_of(line, 0, i), false);
            let value = trim_exec(&slice_of(line, i + 1, ln), false);
            Some((string_of(&key, 0, key.len()), string_of(&value, 0, value.len())))
        },
        None => None,
    }
}

impl Request {
    /// Takes a request apart. Nothing is rejected here: what is missing is empty.
    pub fn parse(request: &str) -> (r: Request)
        ensures
            r.method@ == method_of(request@),
            r.path@ == path_of(request@),
            pairs_view(r.headers@) == header_pairs(header_lines(request@)),
            r.body@ == body_of(request@),
    {
        proof {
            lemma_body_start(request@);
        }
        let v = chars_of(request);
        let n = v.len();
        let bs = match find_blank_line(&v) {
            Some(i) => i + 4,
            None => n,
        };
        let raw_body = slice_of(&v, bs, n);
        let body_chars = trim_exec(&trim_exec(&raw_body, true), false);
        let body = string_of(&body_chars, 0, body_chars.len());

        let line_end = match find_char_exec(&v, '\n', 0) {
            Some(i) => {
                proof {
                    lemma_find_char_from(v@, '\n', 0);
                }
                i
            },
            None => 0,
        };
        let line = slice_of(&v, 0, line_end);
        let (method, path) = match find_char_exec(&line, ' ', 0) {
            Some(i) => {
                proof {
                    lemma_find_char_from(line@, ' ', 0);
                }
                let rest = slice_of(&line, i + 1, line.len());
                let path = match find_char_exec(&rest, ' ', 0) {
                    Some(j) => {
                        proof {
                            lemma_find_char_from(rest@, ' ', 0);
                        }
                        string_of(&rest, 0, j)
                    },
                    None => String::new(),
                };
                (string_of(&line, 0, i), path)
            },
            None => (String::new(), String::new()),
        };
        proof {
            if find_char(request@, '\n') is None {
                assert(line@ =~= seq![]);
            }
        }

        let head = slice_of(&v, 0, bs);
        let hn = head.len();
        let mut headers: Vec<(String, String)> = Vec::new();
        match find_char_exec(&head, '\n', 0) {
            Some(first) => {
                proof {
                    lemma_find_char_from(head@, '\n', 0);
                }
                let mut i: usize = first + 1;
                while i < hn
                    invariant
                        hn == head@.len(),
                        first < i <= hn,
                        head@ == request@.subrange(0, body_start(request@)),
                        find_char(head@, '\n') == Some(first as int),
                        pairs_view(headers@) + header_pairs(lines_from(head@, i as int))
                            == header_pairs(lines_from(head@, first + 1)),
                    decreases hn - i,
                {
                    let j = match find_char_exec(&head, '\n', i) {
                        Some(j) => j,
                        None => hn,
                    };
                    proof {
                        lemma_find_char_from(head@, '\n', i as int);
                    }
                    let line = slice_of(&head, i, j);
                    let ghost rest = lines_from(head@, if j < hn { j + 1 } else { hn as int });
                    let ghost before = pairs_view(headers@);
                    assert(lines_from(head@, i as int) == seq![line@] + rest) by {
                        if j == hn {
                            assert(rest =~= seq![]);
                            assert(find_char_from(head@, '\n', i as int) is None);
                            assert(seq![line@] + rest =~= seq![line@]);
                        }
                    }
                    assert((seq![line@] + rest).drop_first() =~= rest);
                    match header_pair_exec(&line) {
                        Some(p) => {
                            headers.push(p);
                            assert(pairs_view(headers@) =~= before + seq![(p.0@, p.1@)]);
                        },
                        None => {},
                    }
                    if j < hn {
                        i = j + 1;
                    } else {
                        i = hn;
                    }
                }
                assert(lines_from(head@, i as int) =~= seq![]);
                assert(pairs_view(headers@) =~= pairs_view(headers@) + header_pairs(
                    lines_from(head@, i as int),
                ));
            },
            None => {
                assert(pairs_view(headers@) =~= seq![]);
            },
        }
        Request { method, path, headers, body }
    }

    /// The value of the header named `name`; a later one overrides an earlier one.
    pub fn header(&self, name: &str) -> (r: Option<String>)
        ensures
            match r {
                Some(s) => header_lookup(pairs_view(self.headers@), name@) == Some(s@),
                None => header_lookup(pairs_view(self.headers@), name@) is None,
            },
    {
        let mut i: usize = self.headers.len();
        assert(pairs_view(self.headers@).subrange(0, i as int) =~= pairs_view(self.headers@));
        while i > 0
            invariant
                i <= self.headers@.len(),
                header_lookup(pairs_view(self.headers@), name@) == header_lookup(
                    pairs_view(self.headers@).subrange(0, i as int),
                    name@,
                ),
            decreases i,
        {
            let ghost pre = pairs_view(self.headers@).subrange(0, i as int);
            assert(pre.drop_last() =~= pairs_view(self.headers@).subrange(0, i - 1));
            let key = chars_of(self.headers[i - 1].0.as_str());
            if chars_equal(&key, name) {
                return Some(self.headers[i - 1].1.clone());
            }
            i = i - 1;
        }
        None
    }
}

} // verus!
