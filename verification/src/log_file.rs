//! Log files of battery measurements: their lines, and the JSON object that
//! each line holds.

use vstd::prelude::*;

verus! {

/// The pieces of `s` between its newline characters.
pub open spec fn newline_pieces(s: Seq<char>) -> Seq<Seq<char>>
    decreases s.len(),
{
    if s.len() == 0 {
        seq![Seq::empty()]
    } else {
        let p = newline_pieces(s.drop_last());
        if s.last() == '\n' {
            p.push(Seq::empty())
        } else {
            p.update(p.len() - 1, p.last().push(s.last()))
        }
    }
}

/// A line without the carriage return that ends it, where one does.
pub open spec fn without_cr(l: Seq<char>) -> Seq<char> {
    if l.len() > 0 && l.last() == '\r' {
        l.drop_last()
    } else {
        l
    }
}

/// The lines of a text: the pieces between newlines, an empty piece after a
/// final newline left out, and a carriage return before a newline dropped.
pub open spec fn spec_lines(s: Seq<char>) -> Seq<Seq<char>> {
    let p = newline_pieces(s);
    let ended = if p.last().len() == 0 {
        p.drop_last()
    } else {
        p
    };
    Seq::new(
        ended.len(),
        |i: int|
            if i < p.len() - 1 {
                without_cr(ended[i])
            } else {
                ended[i]
            },
    )
}

/// The JSON object on a line: from its first opening brace to its last
/// closing brace, where a closing brace follows the first opening one.
pub open spec fn spec_json_object(line: Seq<char>) -> Option<Seq<char>> {
    match (line.index_of_first('{'), line.index_of_last('}')) {
        (Some(i), Some(j)) => if i < j {
            Some(line.subrange(i, j + 1))
        } else {
            None
        },
        _ => None,
    }
}

/// The JSON objects of the lines of a log file, in order.
pub open spec fn spec_json_objects(text: Seq<char>) -> Seq<Seq<char>> {
    spec_lines(text).filter_map(|l: Seq<char>| spec_json_object(l))
}

/// Splits a text into lines with `str::lines`: it splits at `\n` and at
/// `\r\n`, gives no empty line after a final line ending, and keeps a `\r`
/// that no `\n` follows.
#[verifier::external_body]
fn split_lines<'a>(text: &'a str) -> (r: Vec<&'a str>)
    ensures
        r@.len() == spec_lines(text@).len(),
        forall|i: int| 0 <= i < r@.len() ==> #[trigger] r@[i]@ == spec_lines(text@)[i],
{
    text.lines().collect()
}

/// The JSON object on a line (see `spec_json_object`): the text from the
/// line's first `{` to its last `}`, where that `}` comes after the `{`.
pub fn json_object(line: &str) -> (r: Option<String>)
    requires
        !line@.contains('\n'),
    ensures
        match r {
            Some(j) => spec_json_object(line@) == Some(j@),
            None => spec_json_object(line@) is None,
        },
{
    proof {
        line@.index_of_first_ensures('{');
        line@.index_of_last_ensures('}');
    }
    let n = line.unicode_len();
    let mut i: usize = 0;
    while i < n && line.get_char(i) != '{'
        invariant
            i <= n,
            n == line@.len(),
            forall|k: int| 0 <= k < i ==> line@[k] != '{',
        decreases n - i,
    {
        i = i + 1;
    }
    if i == n {
        return None;
    }
    let mut j: usize = n;
    while j > 0 && line.get_char(j - 1) != '}'
        invariant
            j <= n,
            n == line@.len(),
            forall|k: int| j <= k < n ==> line@[k] != '}',
        decreases j,
    {
        j = j - 1;
    }
    if j == 0 || j - 1 <= i {
        return None;
    }
    Some(String::from_str(line.substring_char(i, j)))
}

proof fn lemma_newline_pieces_no_newline(s: Seq<char>)
    ensures
        newline_pieces(s).len() >= 1,
        forall|i: int|
            0 <= i < newline_pieces(s).len() ==> !(#[trigger] newline_pieces(s)[i]).contains('\n'),
    decreases s.len(),
{
    if s.len() > 0 {
        let p = newline_pieces(s.drop_last());
        lemma_newline_pieces_no_newline(s.drop_last());
        let q = newline_pieces(s);
        assert forall|i: int| 0 <= i < q.len() implies !(#[trigger] q[i]).contains('\n') by {
            if s.last() == '\n' {
                if i < p.len() {
                    assert(q[i] == p[i]);
                } else {
                    assert(q[i] =~= Seq::<char>::empty());
                }
            } else if i == p.len() - 1 {
                let l = p.last().push(s.last());
                assert(q[i] == l);
                if l.contains('\n') {
                    let k = choose|k: int| 0 <= k < l.len() && l[k] == '\n';
                    assert(p.last()[k] == '\n');
                }
            } else {
                assert(q[i] == p[i]);
            }
        }
    }
}

proof fn lemma_lines_no_newline(s: Seq<char>, i: int)
    requires
        0 <= i < spec_lines(s).len(),
    ensures
        !spec_lines(s)[i].contains('\n'),
{
    lemma_newline_pieces_no_newline(s);
    let p = newline_pieces(s);
    let l = spec_lines(s)[i];
    assert(p[i] == (if p.last().len() == 0 { p.drop_last() } else { p })[i]);
    if l.contains('\n') {
        let k = choose|k: int| 0 <= k < l.len() && l[k] == '\n';
        assert(p[i][k] == '\n');
    }
}

/// The JSON objects of the lines of a log file, in order; lines without one
/// are passed over.
pub fn json_objects(text: &str) -> (r: Vec<String>)
    ensures
        r@.len() == spec_json_objects(text@).len(),
        forall|i: int| 0 <= i < r@.len() ==> #[trigger] r@[i]@ == spec_json_objects(text@)[i],
{
    let lines = split_lines(text);
    let ghost ls = spec_lines(text@);
    let ghost f = |l: Seq<char>| spec_json_object(l);
    let mut out: Vec<String> = Vec::new();
    let n = lines.len();
    let mut i: usize = 0;
    assert(ls.take(0) =~= Seq::<Seq<char>>::empty());
    while i < n
        invariant
            n == lines@.len(),
            n == ls.len(),
            ls == spec_lines(text@),
            f == (|l: Seq<char>| spec_json_object(l)),
            forall|k: int| 0 <= k < n ==> #[trigger] lines@[k]@ == ls[k],
            i <= n,
            out@.len() == ls.take(i as int).filter_map(f).len(),
            forall|k: int|
                0 <= k < out@.len() ==> #[trigger] out@[k]@ == ls.take(i as int).filter_map(f)[k],
        decreases n - i,
    {
        proof {
            ls.lemma_filter_map_take_succ(f, i as int);
            lemma_lines_no_newline(text@, i as int);
        }
        let line: &str = lines[i];
        assert(line@ == ls[i as int]);
        match json_object(line) {
            Some(j) => {
                out.push(j);
            },
            None => {},
        }
        i = i + 1;
    }
    assert(ls.take(n as int) =~= ls);
    out
}

} // verus!
