use vstd::prelude::*;

use crate::error::ExtensionError;

verus! {

/// `pat` occurs in `s` starting at index `i`.
pub open spec fn occurs_at(s: Seq<char>, pat: Seq<char>, i: int) -> bool {
    &&& 0 <= i
    &&& i + pat.len() <= s.len()
    &&& forall|k: int| 0 <= k < pat.len() ==> s[i + k] == pat[k]
}

/// `i` is the first index at which `pat` occurs in `s`.
pub open spec fn first_at(s: Seq<char>, pat: Seq<char>, i: int) -> bool {
    &&& occurs_at(s, pat, i)
    &&& forall|j: int| 0 <= j < i ==> !occurs_at(s, pat, j)
}

/// Index of the first occurrence of `pat` in `s`, or -1 when there is none.
pub open spec fn find(s: Seq<char>, pat: Seq<char>) -> int {
    if exists|i: int| first_at(s, pat, i) {
        choose|i: int| first_at(s, pat, i)
    } else {
        -1
    }
}

pub open spec fn quote() -> Seq<char> {
    seq!['"']
}

/// The key as it is written in a manifest: between double quotes.
pub open spec fn quoted(key: Seq<char>) -> Seq<char> {
    quote() + key + quote()
}

/// The value that one line gives for `key`: after the first quoted occurrence of the
/// key, the text between the next two double quotes.
pub open spec fn line_value(line: Seq<char>, key: Seq<char>) -> Option<Seq<char>> {
    let start = find(line, quoted(key));
    if start < 0 {
        None
    } else {
        let after_key = line.skip(start + quoted(key).len());
        let open = find(after_key, quote());
        if open < 0 {
            None
        } else {
            let after_open = after_key.skip(open + 1);
            let close = find(after_open, quote());
            if close < 0 {
                None
            } else {
                Some(after_open.take(close))
            }
        }
    }
}

/// The value of `key` in `text`, taken from the first line that gives one.
pub open spec fn extract(text: Seq<char>, key: Seq<char>) -> Option<Seq<char>>
    decreases text.len(),
{
    let nl = find(text, seq!['\n']);
    let line = if nl < 0 { text } else { text.take(nl) };
    match line_value(line, key) {
        Some(v) => Some(v),
        None => if nl < 0 || nl >= text.len() {
            None
        } else {
            extract(text.skip(nl + 1), key)
        },
    }
}

/// The message of the error for a key that no line gives.
pub open spec fn key_not_found_message(key: Seq<char>) -> Seq<char> {
    "Key "@ + key + " not found"@
}

proof fn lemma_first_unique(s: Seq<char>, pat: Seq<char>, i: int)
    requires
        first_at(s, pat, i),
    ensures
        find(s, pat) == i,
{
    let j = choose|j: int| first_at(s, pat, j);
    assert(first_at(s, pat, j));
    if j < i {
        assert(!occurs_at(s, pat, j));
    } else if i < j {
        assert(!occurs_at(s, pat, i));
    }
}

proof fn lemma_find_bounds(s: Seq<char>, pat: Seq<char>)
    ensures
        find(s, pat) >= 0 ==> first_at(s, pat, find(s, pat)),
        find(s, pat) >= 0 ==> find(s, pat) + pat.len() <= s.len(),
        -1 <= find(s, pat),
{
    if exists|i: int| first_at(s, pat, i) {
        let i = choose|i: int| first_at(s, pat, i);
        lemma_first_unique(s, pat, i);
    }
}

/// The characters of `s`, one per element.
fn chars_of(s: &str) -> (r: Vec<char>)
    ensures
        r@ == s@,
{
    let n = s.unicode_len();
    let mut r: Vec<char> = Vec::new();
    let mut i: usize = 0;
    while i < n
        invariant
            n == s@.len(),
            i <= n,
            r@ == s@.take(i as int),
        decreases n - i,
    {
        r.push(s.get_char(i));
        i = i + 1;
        assert(r@ =~= s@.take(i as int));
    }
    assert(r@ =~= s@);
    r
}

/// First occurrence of `pat` in `cs[lo..hi]`, as an index into `cs`.
fn find_in(cs: &Vec<char>, pat: &Vec<char>, lo: usize, hi: usize) -> (r: Option<usize>)
    requires
        lo <= hi <= cs@.len(),
    ensures
        match r {
            Some(i) => lo <= i && find(cs@.subrange(lo as int, hi as int), pat@) == i - lo,
            None => find(cs@.subrange(lo as int, hi as int), pat@) == -1,
        },
{
    let ghost sub = cs@.subrange(lo as int, hi as int);
    let m = pat.len();
    if m > hi - lo {
        proof {
            lemma_find_bounds(sub, pat@);
        }
        return None;
    }
    let mut i: usize = lo;
    while i <= hi - m
        invariant
            lo <= i <= hi,
            m == pat@.len(),
            m <= hi - lo,
            hi <= cs@.len(),
            sub == cs@.subrange(lo as int, hi as int),
            forall|j: int| 0 <= j < i - lo ==> !occurs_at(sub, pat@, j),
        decreases hi - i,
    {
        let mut k: usize = 0;
        let mut matched = true;
        while k < m
            invariant
                i + m <= hi,
                hi <= cs@.len(),
                m == pat@.len(),
                k <= m,
                matched ==> forall|t: int| 0 <= t < k ==> cs@[i + t] == pat@[t],
                !matched ==> exists|t: int| 0 <= t < m && cs@[i + t] != pat@[t],
            decreases m - k,
        {
            if cs[i + k] != pat[k] {
                matched = false;
            }
            k = k + 1;
        }
        if matched {
            proof {
                assert forall|t: int| 0 <= t < pat@.len() implies sub[(i - lo) + t] == pat@[t] by {
                    assert(sub[(i - lo) + t] == cs@[i + t]);
                }
                assert(occurs_at(sub, pat@, i - lo));
                lemma_first_unique(sub, pat@, i - lo);
            }
            return Some(i);
        }
        proof {
            let t = choose|t: int| 0 <= t < m && cs@[i + t] != pat@[t];
            assert(sub[(i - lo) + t] == cs@[i + t]);
        }
        i = i + 1;
    }
    proof {
        if exists|j: int| first_at(sub, pat@, j) {
            let j = choose|j: int| first_at(sub, pat@, j);
            assert(!occurs_at(sub, pat@, j));
        }
    }
    None
}

/// The key between double quotes, one character per element.
fn quoted_chars(key: &str) -> (r: Vec<char>)
    ensures
        r@ == quoted(key@),
{
    let k = chars_of(key);
    let mut r: Vec<char> = vec!['"'];
    let mut i: usize = 0;
    while i < k.len()
        invariant
            i <= k@.len(),
            r@ == quote() + k@.take(i as int),
        decreases k@.len() - i,
    {
        r.push(k[i]);
        i = i + 1;
        assert(r@ =~= quote() + k@.take(i as int));
    }
    r.push('"');
    assert(k@.take(k@.len() as int) =~= k@);
    assert(r@ =~= quoted(key@));
    r
}

/// The value that the line `cs[lo..hi]` gives, as a range of indices into `cs`.
fn line_value_in(cs: &Vec<char>, key: &str, pat: &Vec<char>, q: &Vec<char>, lo: usize, hi: usize) -> (r:
    Option<(usize, usize)>)
    requires
        lo <= hi <= cs@.len(),
        pat@ == quoted(key@),
        q@ == quote(),
    ensures
        match r {
            Some((a, b)) => lo <= a <= b <= hi && line_value(cs@.subrange(lo as int, hi as int), key@)
                == Some(cs@.subrange(a as int, b as int)),
            None => line_value(cs@.subrange(lo as int, hi as int), key@) is None,
        },
{
    let ghost line = cs@.subrange(lo as int, hi as int);
    proof {
        lemma_find_bounds(line, pat@);
    }
    let start = match find_in(cs, pat, lo, hi) {
        None => return None,
        Some(s) => s,
    };
    let a0 = start + pat.len();
    let ghost after_key = line.skip(start - lo + quoted(key@).len());
    assert(after_key =~= cs@.subrange(a0 as int, hi as int));
    proof {
        lemma_find_bounds(after_key, quote());
    }
    let open = match find_in(cs, q, a0, hi) {
        None => return None,
        Some(o) => o,
    };
    let a1 = open + 1;
    let ghost after_open = after_key.skip(open - a0 + 1);
    assert(after_open =~= cs@.subrange(a1 as int, hi as int));
    proof {
        lemma_find_bounds(after_open, quote());
    }
    let close = match find_in(cs, q, a1, hi) {
        None => return None,
        Some(c) => c,
    };
    assert(after_open.take(close - a1) =~= cs@.subrange(a1 as int, close as int));
    Some((a1, close))
}

/// Reads the value of `key` from manifest text: the first line holding the key in
/// double quotes gives, after it, the text between the next two double quotes. Lines
/// where that pair is missing are passed over.
pub fn extract_vdf_value(content: &str, key: &str) -> (r: Result<String, ExtensionError>)
    ensures
        r is Ok <==> extract(content@, key@) is Some,
        r matches Ok(v) ==> extract(content@, key@) == Some(v@),
        r matches Err(e) ==> e matches ExtensionError::Validation(m) && m@ == key_not_found_message(
            key@,
        ),
{
    let cs = chars_of(content);
    let pat = quoted_chars(key);
    let q: Vec<char> = vec!['"'];
    let nl: Vec<char> = vec!['\n'];
    let n = cs.len();
    let mut pos: usize = 0;
    assert(cs@.skip(0) =~= content@);
    loop
        invariant
            pos <= n,
            n == cs@.len(),
            cs@ == content@,
            pat@ == quoted(key@),
            q@ == quote(),
            nl@ == seq!['\n'],
            extract(content@, key@) == extract(cs@.skip(pos as int), key@),
        decreases n - pos,
    {
        let ghost text = cs@.skip(pos as int);
        assert(text =~= cs@.subrange(pos as int, n as int));
        proof {
            lemma_find_bounds(text, seq!['\n']);
        }
        let found = find_in(&cs, &nl, pos, n);
        let end = match found {
            Some(e) => e,
            None => n,
        };
        assert(cs@.subrange(pos as int, end as int) =~= if found is Some {
            text.take(end - pos)
        } else {
            text
        });
        match line_value_in(&cs, key, &pat, &q, pos, end) {
            Some((a, b)) => {
                let v = content.substring_char(a, b).to_string();
                return Ok(v);
            },
            None => {},
        }
        match found {
            None => {
                let mut m = "Key ".to_string();
                m.append(key);
                m.append(" not found");
                proof {
                    reveal_strlit("Key ");
                    reveal_strlit(" not found");
                }
                return Err(ExtensionError::Validation(m));
            },
            Some(e) => {
                assert(text.skip(e - pos + 1) =~= cs@.skip(e + 1));
                pos = e + 1;
            },
        }
    }
}

/// Extraction depends on the text and the key alone: extracting the same key again from
/// unchanged text gives the same value.
pub proof fn lemma_extract_repeatable(text: Seq<char>, key: Seq<char>, first: Seq<char>, second: Seq<
    char,
>)
    requires
        extract(text, key) == Some(first),
        extract(text, key) == Some(second),
    ensures
        first == second,
{
}

} // verus!
