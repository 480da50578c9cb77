//! Text: the order of strings, comparison, decimal numbers and the small
//! string operations the rest of the library is written with.

use vstd::prelude::*;
use vstd::relations::{sorted_by, total_ordering};
use vstd::seq_lib::group_to_multiset_ensures;
use vstd::utf8::*;

verus! {

// ---- Order ------------------------------------------------------------------

/// Lexicographic order of byte strings.
pub open spec fn bytes_less(a: Seq<u8>, b: Seq<u8>) -> bool
    decreases a.len(),
{
    if b.len() == 0 {
        false
    } else if a.len() == 0 {
        true
    } else if a[0] != b[0] {
        a[0] < b[0]
    } else {
        bytes_less(a.drop_first(), b.drop_first())
    }
}

/// The order of strings: lexicographic on their UTF-8 bytes.
pub open spec fn text_less(a: Seq<char>, b: Seq<char>) -> bool {
    bytes_less(encode_utf8(a), encode_utf8(b))
}

/// Lexicographic order of lists of strings.
pub open spec fn parts_less(a: Seq<Seq<char>>, b: Seq<Seq<char>>) -> bool
    decreases a.len(),
{
    if b.len() == 0 {
        false
    } else if a.len() == 0 {
        true
    } else if a[0] != b[0] {
        text_less(a[0], b[0])
    } else {
        parts_less(a.drop_first(), b.drop_first())
    }
}

proof fn lemma_bytes_irreflexive(a: Seq<u8>)
    ensures
        !bytes_less(a, a),
    decreases a.len(),
{
    if a.len() > 0 {
        lemma_bytes_irreflexive(a.drop_first());
    }
}

proof fn lemma_bytes_transitive(a: Seq<u8>, b: Seq<u8>, c: Seq<u8>)
    requires
        bytes_less(a, b),
        bytes_less(b, c),
    ensures
        bytes_less(a, c),
    decreases a.len(),
{
    if a.len() > 0 && b.len() > 0 && c.len() > 0 && a[0] == b[0] && b[0] == c[0] {
        lemma_bytes_transitive(a.drop_first(), b.drop_first(), c.drop_first());
    }
}

proof fn lemma_bytes_total(a: Seq<u8>, b: Seq<u8>)
    ensures
        a == b || bytes_less(a, b) || bytes_less(b, a),
    decreases a.len(),
{
    if a.len() > 0 && b.len() > 0 && a[0] == b[0] {
        lemma_bytes_total(a.drop_first(), b.drop_first());
        if a.drop_first() == b.drop_first() {
            assert(a =~= seq![a[0]] + a.drop_first());
            assert(b =~= seq![b[0]] + b.drop_first());
        }
    } else if a.len() == 0 && b.len() == 0 {
        assert(a =~= b);
    }
}

pub proof fn lemma_text_irreflexive(a: Seq<char>)
    ensures
        !text_less(a, a),
{
    lemma_bytes_irreflexive(encode_utf8(a));
}

pub proof fn lemma_text_transitive(a: Seq<char>, b: Seq<char>, c: Seq<char>)
    requires
        text_less(a, b),
        text_less(b, c),
    ensures
        text_less(a, c),
{
    lemma_bytes_transitive(encode_utf8(a), encode_utf8(b), encode_utf8(c));
}

pub proof fn lemma_text_total(a: Seq<char>, b: Seq<char>)
    ensures
        a == b || text_less(a, b) || text_less(b, a),
{
    lemma_bytes_total(encode_utf8(a), encode_utf8(b));
    encode_utf8_decode_utf8(a);
    encode_utf8_decode_utf8(b);
}

pub proof fn lemma_parts_irreflexive(a: Seq<Seq<char>>)
    ensures
        !parts_less(a, a),
    decreases a.len(),
{
    if a.len() > 0 {
        lemma_parts_irreflexive(a.drop_first());
    }
}

pub proof fn lemma_parts_transitive(a: Seq<Seq<char>>, b: Seq<Seq<char>>, c: Seq<Seq<char>>)
    requires
        parts_less(a, b),
        parts_less(b, c),
    ensures
        parts_less(a, c),
    decreases a.len(),
{
    if a.len() > 0 && b.len() > 0 && c.len() > 0 {
        if a[0] == b[0] && b[0] == c[0] {
            lemma_parts_transitive(a.drop_first(), b.drop_first(), c.drop_first());
        } else if a[0] != b[0] && b[0] != c[0] {
            lemma_text_transitive(a[0], b[0], c[0]);
            if a[0] == c[0] {
                lemma_text_irreflexive(a[0]);
            }
        }
    }
}

pub proof fn lemma_parts_total(a: Seq<Seq<char>>, b: Seq<Seq<char>>)
    ensures
        a == b || parts_less(a, b) || parts_less(b, a),
    decreases a.len(),
{
    if a.len() > 0 && b.len() > 0 {
        if a[0] == b[0] {
            lemma_parts_total(a.drop_first(), b.drop_first());
            if a.drop_first() == b.drop_first() {
                assert(a =~= seq![a[0]] + a.drop_first());
                assert(b =~= seq![b[0]] + b.drop_first());
            }
        } else {
            lemma_text_total(a[0], b[0]);
        }
    } else if a.len() == 0 && b.len() == 0 {
        assert(a =~= b);
    }
}

/// Whether `a` sorts before `b`.
pub fn less(a: &str, b: &str) -> (r: bool)
    ensures
        r == text_less(a@, b@),
{
    let x = a.as_bytes();
    let y = b.as_bytes();
    let mut i: usize = 0;
    proof {
        assert(x@.skip(0) =~= x@);
        assert(y@.skip(0) =~= y@);
    }
    while i < x.len() && i < y.len() && x[i] == y[i]
        invariant
            i <= x@.len(),
            i <= y@.len(),
            bytes_less(x@, y@) == bytes_less(x@.skip(i as int), y@.skip(i as int)),
        decreases x@.len() - i,
    {
        proof {
            assert(x@.skip(i as int).drop_first() =~= x@.skip(i + 1));
            assert(y@.skip(i as int).drop_first() =~= y@.skip(i + 1));
        }
        i += 1;
    }
    if i >= y.len() {
        false
    } else if i >= x.len() {
        true
    } else {
        x[i] < y[i]
    }
}

/// Whether two strings are the same text.
pub fn same(a: &str, b: &str) -> (r: bool)
    ensures
        r == (a@ == b@),
{
    a.to_owned() == b.to_owned()
}

// ---- Options of text --------------------------------------------------------

/// The text an optional string holds.
pub open spec fn opt_text(value: Option<String>) -> Option<Seq<char>> {
    match value {
        Some(value) => Some(value@),
        None => None,
    }
}

pub fn same_option(a: &Option<String>, b: &Option<String>) -> (r: bool)
    ensures
        r == (opt_text(*a) == opt_text(*b)),
{
    match (a, b) {
        (Some(a), Some(b)) => same(a, b),
        (None, None) => true,
        _ => false,
    }
}

pub fn copy_option(value: &Option<String>) -> (r: Option<String>)
    ensures
        r == *value,
{
    match value {
        Some(value) => Some(value.clone()),
        None => None,
    }
}

pub fn some_is(value: &Option<String>, text: &str) -> (r: bool)
    ensures
        r == (opt_text(*value) == Some(text@)),
{
    match value {
        Some(value) => same(value, text),
        None => false,
    }
}

pub fn copy_list(list: &Vec<String>) -> (r: Vec<String>)
    ensures
        r@ == list@,
{
    let mut r: Vec<String> = Vec::new();
    let mut i: usize = 0;
    while i < list.len()
        invariant
            i <= list@.len(),
            r@ == list@.take(i as int),
        decreases list@.len() - i,
    {
        r.push(list[i].clone());
        proof {
            assert(list@.take(i + 1) =~= list@.take(i as int).push(list@[i as int]));
        }
        i += 1;
    }
    proof {
        assert(list@.take(i as int) =~= list@);
    }
    r
}

/// The texts of a list of strings.
pub open spec fn texts(list: Seq<String>) -> Seq<Seq<char>> {
    list.map_values(|s: String| s@)
}

/// Whether a list holds a text.
pub fn list_has(list: &Vec<String>, text: &str) -> (r: bool)
    ensures
        r == texts(list@).contains(text@),
{
    let mut i: usize = 0;
    while i < list.len()
        invariant
            i <= list@.len(),
            forall|j: int| 0 <= j < i ==> (#[trigger] list@[j])@ != text@,
        decreases list@.len() - i,
    {
        if same(&list[i], text) {
            proof {
                assert(texts(list@)[i as int] == text@);
            }
            return true;
        }
        i += 1;
    }
    proof {
        assert forall|j: int| 0 <= j < texts(list@).len() implies texts(list@)[j] != text@ by {
            assert(list@[j]@ != text@);
        }
    }
    false
}

// ---- Characters -------------------------------------------------------------

/// `String::push` appends the given character to the end of the string.
pub assume_specification[ String::push ](s: &mut String, c: char)
    ensures
        final(s)@ == old(s)@.push(c),
;

pub fn chars_of(s: &str) -> (r: Vec<char>)
    ensures
        r@ == s@,
{
    let mut r: Vec<char> = Vec::new();
    for c in it: s.chars()
        invariant
            it.seq() == s@,
            r@ == s@.take(it.index() as int),
    {
        proof {
            assert(s@.take(it.index() + 1) =~= s@.take(it.index() as int).push(c));
        }
        r.push(c);
    }
    proof {
        assert(s@.take(s@.len() as int) =~= s@);
    }
    r
}

/// The characters of `chars` from `from` up to `to`, as a string.
pub fn slice_of(chars: &Vec<char>, from: usize, to: usize) -> (r: String)
    requires
        from <= to <= chars@.len(),
    ensures
        r@ == chars@.subrange(from as int, to as int),
{
    let mut r = String::new();
    let mut i: usize = from;
    while i < to
        invariant
            from <= i <= to <= chars@.len(),
            r@ == chars@.subrange(from as int, i as int),
        decreases to - i,
    {
        r.push(chars[i]);
        proof {
            assert(chars@.subrange(from as int, i + 1) =~= chars@.subrange(
                from as int,
                i as int,
            ).push(chars@[i as int]));
        }
        i += 1;
    }
    r
}

/// Whether `s` starts with `prefix`.
pub fn starts_with(s: &str, prefix: &str) -> (r: bool)
    ensures
        r == prefix@.is_prefix_of(s@),
{
    let text = chars_of(s);
    let head = chars_of(prefix);
    starts_at(&text, 0, &head)
}

/// Whether `head` stands in `text` at position `at`.
pub fn starts_at(text: &Vec<char>, at: usize, head: &Vec<char>) -> (r: bool)
    requires
        at <= text@.len(),
    ensures
        r == head@.is_prefix_of(text@.skip(at as int)),
{
    let size: usize = text.len();
    if head.len() > size - at {
        return false;
    }
    let mut i: usize = 0;
    while i < head.len()
        invariant
            i <= head@.len(),
            size == text@.len(),
            at + head@.len() <= text@.len(),
            forall|j: int| 0 <= j < i ==> head@[j] == text@[at + j],
        decreases head@.len() - i,
    {
        if head[i] != text[at + i] {
            proof {
                let rest = text@.skip(at as int);
                if head@.is_prefix_of(rest) {
                    assert(rest.subrange(0, head@.len() as int)[i as int] == text@[at + i]);
                }
            }
            return false;
        }
        i += 1;
    }
    proof {
        assert(head@ =~= text@.skip(at as int).subrange(0, head@.len() as int));
    }
    true
}

/// What is left of `s` once every leading repetition of `prefix` is gone.
pub open spec fn without_prefix(s: Seq<char>, prefix: Seq<char>) -> Seq<char>
    decreases s.len(),
{
    if prefix.len() > 0 && prefix.is_prefix_of(s) {
        without_prefix(s.skip(prefix.len() as int), prefix)
    } else {
        s
    }
}

/// `s` without any leading repetitions of `prefix`.
pub fn trim_prefix(s: &str, prefix: &str) -> (r: String)
    ensures
        r@ == without_prefix(s@, prefix@),
{
    let text = chars_of(s);
    let head = chars_of(prefix);
    let mut at: usize = 0;
    let size: usize = text.len();
    proof {
        assert(text@.skip(0) =~= text@);
    }
    if head.len() > 0 {
        while starts_at(&text, at, &head)
            invariant
                at <= text@.len(),
                size == text@.len(),
                head@.len() > 0,
                without_prefix(text@, head@) == without_prefix(text@.skip(at as int), head@),
            decreases text@.len() - at,
        {
            proof {
                assert(text@.skip(at as int).skip(head@.len() as int) =~= text@.skip(
                    at + head@.len(),
                ));
            }
            at = at + head.len();
        }
    }
    proof {
        assert(text@.subrange(at as int, text@.len() as int) =~= text@.skip(at as int));
    }
    slice_of(&text, at, text.len())
}

/// The first `n` characters of `s`, or all of it when it is shorter.
pub open spec fn first_chars(s: Seq<char>, n: nat) -> Seq<char> {
    if s.len() <= n {
        s
    } else {
        s.take(n as int)
    }
}

pub fn head_of(s: &str, n: usize) -> (r: String)
    ensures
        r@ == first_chars(s@, n as nat),
{
    let text = chars_of(s);
    let to: usize = if text.len() <= n {
        text.len()
    } else {
        n
    };
    proof {
        assert(text@.subrange(0, to as int) =~= first_chars(s@, n as nat));
    }
    slice_of(&text, 0, to)
}

pub open spec fn is_lower(c: char) -> bool {
    'a' <= c && c <= 'z'
}

pub open spec fn is_upper(c: char) -> bool {
    'A' <= c && c <= 'Z'
}

pub open spec fn is_digit(c: char) -> bool {
    '0' <= c && c <= '9'
}

/// ASCII letters and digits.
pub open spec fn is_alphanumeric(c: char) -> bool {
    is_lower(c) || is_upper(c) || is_digit(c)
}

pub fn alphanumeric(c: char) -> (r: bool)
    ensures
        r == is_alphanumeric(c),
{
    ('a' <= c && c <= 'z') || ('A' <= c && c <= 'Z') || ('0' <= c && c <= '9')
}

/// A character with ASCII capitals made small.
pub open spec fn lower_char(c: char) -> char {
    if is_upper(c) {
        ((c as u8 + 32) as u8) as char
    } else {
        c
    }
}

/// A character with ASCII small letters made capital.
pub open spec fn upper_char(c: char) -> char {
    if is_lower(c) {
        ((c as u8 - 32) as u8) as char
    } else {
        c
    }
}

pub open spec fn lower_text(s: Seq<char>) -> Seq<char> {
    s.map_values(|c: char| lower_char(c))
}

pub open spec fn upper_text(s: Seq<char>) -> Seq<char> {
    s.map_values(|c: char| upper_char(c))
}

/// `s` with ASCII capitals made small.
pub fn lowercase(s: &str) -> (r: String)
    ensures
        r@ == lower_text(s@),
{
    let text = chars_of(s);
    let mut r = String::new();
    let mut i: usize = 0;
    while i < text.len()
        invariant
            i <= text@.len(),
            r@ == lower_text(text@).take(i as int),
        decreases text@.len() - i,
    {
        let c = text[i];
        let small: char = if 'A' <= c && c <= 'Z' {
            (c as u8 + 32) as char
        } else {
            c
        };
        r.push(small);
        proof {
            assert(lower_text(text@).take(i + 1) =~= lower_text(text@).take(i as int).push(small));
        }
        i += 1;
    }
    proof {
        assert(lower_text(text@).take(text@.len() as int) =~= lower_text(text@));
    }
    r
}

/// `s` with ASCII small letters made capital.
pub fn uppercase(s: &str) -> (r: String)
    ensures
        r@ == upper_text(s@),
{
    let text = chars_of(s);
    let mut r = String::new();
    let mut i: usize = 0;
    while i < text.len()
        invariant
            i <= text@.len(),
            r@ == upper_text(text@).take(i as int),
        decreases text@.len() - i,
    {
        let c = text[i];
        let capital: char = if 'a' <= c && c <= 'z' {
            (c as u8 - 32) as char
        } else {
            c
        };
        r.push(capital);
        proof {
            assert(upper_text(text@).take(i + 1) =~= upper_text(text@).take(i as int).push(capital));
        }
        i += 1;
    }
    proof {
        assert(upper_text(text@).take(text@.len() as int) =~= upper_text(text@));
    }
    r
}

/// Whether `s` holds the character.
pub fn has_char(s: &str, c: char) -> (r: bool)
    ensures
        r == s@.contains(c),
{
    let text = chars_of(s);
    let mut i: usize = 0;
    while i < text.len()
        invariant
            i <= text@.len(),
            forall|j: int| 0 <= j < i ==> text@[j] != c,
        decreases text@.len() - i,
    {
        if text[i] == c {
            proof {
                assert(s@[i as int] == c);
            }
            return true;
        }
        i += 1;
    }
    false
}

/// The pieces of a text between occurrences of a separator: one more than
/// there are separators.
pub open spec fn pieces(s: Seq<char>, separator: char) -> Seq<Seq<char>>
    decreases s.len(),
{
    if s.len() == 0 {
        seq![Seq::<char>::empty()]
    } else {
        let before = pieces(s.drop_last(), separator);
        if s.last() == separator {
            before.push(Seq::empty())
        } else {
            before.drop_last().push(before.last().push(s.last()))
        }
    }
}

pub proof fn lemma_pieces(s: Seq<char>, separator: char)
    ensures
        pieces(s, separator).len() >= 1,
    decreases s.len(),
{
    if s.len() > 0 {
        lemma_pieces(s.drop_last(), separator);
    }
}

/// Split a text at each occurrence of a separator.
pub fn split(s: &Vec<char>, separator: char) -> (r: Vec<String>)
    ensures
        texts(r@) == pieces(s@, separator),
        r@.len() >= 1,
{
    let mut done: Vec<String> = Vec::new();
    let mut current = String::new();
    let mut i: usize = 0;
    proof {
        assert(s@.take(0) =~= Seq::<char>::empty());
        assert(texts(done@).push(current@) =~= seq![Seq::<char>::empty()]);
    }
    while i < s.len()
        invariant
            i <= s@.len(),
            texts(done@).push(current@) == pieces(s@.take(i as int), separator),
        decreases s@.len() - i,
    {
        let c = s[i];
        let ghost before = pieces(s@.take(i as int), separator);
        proof {
            assert(s@.take(i + 1).drop_last() =~= s@.take(i as int));
            assert(before.drop_last() =~= texts(done@));
            assert(before.last() == current@);
        }
        if c == separator {
            let ghost so_far = done@;
            done.push(current);
            proof {
                assert(texts(done@) =~= texts(so_far).push(current@));
            }
            current = String::new();
            proof {
                assert(texts(done@).push(current@) =~= before.push(Seq::empty()));
            }
        } else {
            current.push(c);
        }
        i += 1;
    }
    let ghost so_far = done@;
    done.push(current);
    proof {
        assert(s@.take(i as int) =~= s@);
        assert(texts(done@) =~= texts(so_far).push(current@));
    }
    done
}

/// The first position, from `i` on, at which `needle` stands in `s`.
pub open spec fn find_from(s: Seq<char>, needle: Seq<char>, i: int) -> Option<int>
    decreases s.len() - i + 1,
{
    if i < 0 || i > s.len() {
        None
    } else if needle.is_prefix_of(s.skip(i)) {
        Some(i)
    } else {
        find_from(s, needle, i + 1)
    }
}

/// Find the first place a text stands in another.
pub fn find_text(s: &Vec<char>, needle: &str) -> (r: Option<usize>)
    ensures
        match r {
            Some(i) => find_from(s@, needle@, 0) == Some(i as int) && i + needle@.len() <= s@.len(),
            None => find_from(s@, needle@, 0) is None,
        },
{
    let head = chars_of(needle);
    let size: usize = s.len();
    let mut i: usize = 0;
    loop
        invariant
            i <= s@.len(),
            size == s@.len(),
            find_from(s@, needle@, 0) == find_from(s@, needle@, i as int),
        decreases s@.len() - i,
    {
        if starts_at(s, i, &head) {
            return Some(i);
        }
        if i == size {
            proof {
                assert(find_from(s@, needle@, i + 1) is None);
            }
            return None;
        }
        i += 1;
    }
}

/// The position of the first `c`, from `i` on.
pub open spec fn index_from(s: Seq<char>, c: char, i: int) -> Option<int>
    decreases s.len() - i,
{
    if i < 0 || i >= s.len() {
        None
    } else if s[i] == c {
        Some(i)
    } else {
        index_from(s, c, i + 1)
    }
}

/// The position of the first `c`.
pub fn index_of(s: &Vec<char>, c: char) -> (r: Option<usize>)
    ensures
        match r {
            Some(i) => i < s@.len() && index_from(s@, c, 0) == Some(i as int),
            None => index_from(s@, c, 0) is None,
        },
{
    let mut i: usize = 0;
    while i < s.len()
        invariant
            i <= s@.len(),
            index_from(s@, c, 0) == index_from(s@, c, i as int),
        decreases s@.len() - i,
    {
        if s[i] == c {
            return Some(i);
        }
        i += 1;
    }
    None
}

/// The position of the last `c` among the first `n` characters.
pub open spec fn last_index(s: Seq<char>, c: char, n: nat) -> Option<int>
    decreases n,
{
    if n == 0 {
        None
    } else if s[n - 1] == c {
        Some(n - 1)
    } else {
        last_index(s, c, (n - 1) as nat)
    }
}

/// A character that stands nowhere before a place is found there.
pub proof fn lemma_index_from(s: Seq<char>, c: char, i: int, k: int)
    requires
        0 <= i <= k < s.len(),
        s[k] == c,
        forall|j: int| i <= j < k ==> s[j] != c,
    ensures
        index_from(s, c, i) == Some(k),
    decreases k - i,
{
    if i < k {
        lemma_index_from(s, c, i + 1, k);
    }
}

/// A character that stands nowhere is not found.
pub proof fn lemma_index_none(s: Seq<char>, c: char, i: int)
    requires
        0 <= i <= s.len(),
        forall|j: int| i <= j < s.len() ==> s[j] != c,
    ensures
        index_from(s, c, i) is None,
    decreases s.len() - i,
{
    if i < s.len() {
        lemma_index_none(s, c, i + 1);
    }
}

/// A character that stands nowhere after a place is last found there.
pub proof fn lemma_last_index(s: Seq<char>, c: char, n: nat, k: int)
    requires
        0 <= k < n <= s.len(),
        s[k] == c,
        forall|j: int| k < j < n ==> s[j] != c,
    ensures
        last_index(s, c, n) == Some(k),
    decreases n,
{
    if k < n - 1 {
        lemma_last_index(s, c, (n - 1) as nat, k);
    }
}

/// The position of the last `c`.
pub fn last_index_of(s: &Vec<char>, c: char) -> (r: Option<usize>)
    ensures
        match r {
            Some(i) => i < s@.len() && last_index(s@, c, s@.len()) == Some(i as int),
            None => last_index(s@, c, s@.len()) is None,
        },
{
    let mut n: usize = s.len();
    while n > 0
        invariant
            n <= s@.len(),
            last_index(s@, c, s@.len()) == last_index(s@, c, n as nat),
        decreases n,
    {
        if s[n - 1] == c {
            return Some(n - 1);
        }
        n -= 1;
    }
    None
}

/// White space, as Unicode defines it.
pub open spec fn is_space(c: char) -> bool {
    ||| '\u{9}' <= c && c <= '\u{d}'
    ||| c == ' '
    ||| c == '\u{85}'
    ||| c == '\u{a0}'
    ||| c == '\u{1680}'
    ||| '\u{2000}' <= c && c <= '\u{200a}'
    ||| c == '\u{2028}'
    ||| c == '\u{2029}'
    ||| c == '\u{202f}'
    ||| c == '\u{205f}'
    ||| c == '\u{3000}'
}

fn space(c: char) -> (r: bool)
    ensures
        r == is_space(c),
{
    ('\u{9}' <= c && c <= '\u{d}') || c == ' ' || c == '\u{85}' || c == '\u{a0}' || c == '\u{1680}'
        || ('\u{2000}' <= c && c <= '\u{200a}') || c == '\u{2028}' || c == '\u{2029}' || c
        == '\u{202f}' || c == '\u{205f}' || c == '\u{3000}'
}

/// The words of a text that ended, and the one it ends in.
pub open spec fn words_upto(s: Seq<char>) -> (Seq<Seq<char>>, Seq<char>)
    decreases s.len(),
{
    if s.len() == 0 {
        (Seq::empty(), Seq::empty())
    } else {
        let before = words_upto(s.drop_last());
        if !is_space(s.last()) {
            (before.0, before.1.push(s.last()))
        } else if before.1.len() > 0 {
            (before.0.push(before.1), Seq::empty())
        } else {
            (before.0, Seq::empty())
        }
    }
}

/// The words of a text: its longest runs without white space.
pub open spec fn words(s: Seq<char>) -> Seq<Seq<char>> {
    let all = words_upto(s);
    if all.1.len() > 0 {
        all.0.push(all.1)
    } else {
        all.0
    }
}

/// Split a text at white space.
pub fn split_words(s: &Vec<char>) -> (r: Vec<String>)
    ensures
        texts(r@) == words(s@),
{
    let mut done: Vec<String> = Vec::new();
    let mut current = String::new();
    let mut i: usize = 0;
    proof {
        assert(s@.take(0) =~= Seq::<char>::empty());
        assert(texts(done@) =~= Seq::<Seq<char>>::empty());
    }
    while i < s.len()
        invariant
            i <= s@.len(),
            texts(done@) == words_upto(s@.take(i as int)).0,
            current@ == words_upto(s@.take(i as int)).1,
        decreases s@.len() - i,
    {
        let c = s[i];
        proof {
            assert(s@.take(i + 1).drop_last() =~= s@.take(i as int));
            assert(s@.take(i + 1).last() == c);
        }
        if !space(c) {
            current.push(c);
        } else if !current.as_str().is_empty() {
            let ghost before = done@;
            done.push(current);
            proof {
                assert(texts(done@) =~= texts(before).push(current@));
            }
            current = String::new();
            proof {
                assert(current@ =~= Seq::<char>::empty());
            }
        }
        i += 1;
    }
    proof {
        assert(s@.take(i as int) =~= s@);
    }
    if !current.as_str().is_empty() {
        let ghost before = done@;
        done.push(current);
        proof {
            assert(texts(done@) =~= texts(before).push(current@));
        }
    }
    done
}

/// A text without the white space it begins with.
pub open spec fn without_leading_space(s: Seq<char>) -> Seq<char>
    decreases s.len(),
{
    if s.len() > 0 && is_space(s[0]) {
        without_leading_space(s.drop_first())
    } else {
        s
    }
}

/// A text without the white space it ends in.
pub open spec fn without_trailing_space(s: Seq<char>) -> Seq<char>
    decreases s.len(),
{
    if s.len() > 0 && is_space(s.last()) {
        without_trailing_space(s.drop_last())
    } else {
        s
    }
}

/// A text without the white space around it.
pub open spec fn trimmed(s: Seq<char>) -> Seq<char> {
    without_trailing_space(without_leading_space(s))
}

pub fn trim(s: &str) -> (r: String)
    ensures
        r@ == trimmed(s@),
{
    let text = chars_of(s);
    let mut from: usize = 0;
    proof {
        assert(text@.skip(0) =~= text@);
    }
    while from < text.len() && space(text[from])
        invariant
            from <= text@.len(),
            without_leading_space(text@) == without_leading_space(text@.skip(from as int)),
        decreases text@.len() - from,
    {
        proof {
            assert(text@.skip(from as int).drop_first() =~= text@.skip(from + 1));
        }
        from += 1;
    }
    let ghost rest = text@.skip(from as int);
    let mut to: usize = text.len();
    proof {
        assert(text@.subrange(from as int, to as int) =~= rest);
    }
    while from < to && space(text[to - 1])
        invariant
            from <= to <= text@.len(),
            without_trailing_space(rest) == without_trailing_space(
                text@.subrange(from as int, to as int),
            ),
        decreases to - from,
    {
        proof {
            assert(text@.subrange(from as int, to as int).drop_last() =~= text@.subrange(
                from as int,
                to - 1,
            ));
        }
        to -= 1;
    }
    slice_of(&text, from, to)
}

/// A text without the trailing repetitions of a character.
pub open spec fn without_trailing(s: Seq<char>, c: char) -> Seq<char>
    decreases s.len(),
{
    if s.len() > 0 && s.last() == c {
        without_trailing(s.drop_last(), c)
    } else {
        s
    }
}

pub fn trim_end(s: &str, c: char) -> (r: String)
    ensures
        r@ == without_trailing(s@, c),
{
    let text = chars_of(s);
    let mut n: usize = text.len();
    proof {
        assert(text@.take(n as int) =~= text@);
    }
    while n > 0 && text[n - 1] == c
        invariant
            n <= text@.len(),
            without_trailing(text@, c) == without_trailing(text@.take(n as int), c),
        decreases n,
    {
        proof {
            assert(text@.take(n as int).drop_last() =~= text@.take(n - 1));
        }
        n -= 1;
    }
    proof {
        assert(text@.subrange(0, n as int) =~= text@.take(n as int));
    }
    slice_of(&text, 0, n)
}

// ---- Numbers ----------------------------------------------------------------

pub open spec fn digit(n: int) -> char {
    if n == 0 {
        '0'
    } else if n == 1 {
        '1'
    } else if n == 2 {
        '2'
    } else if n == 3 {
        '3'
    } else if n == 4 {
        '4'
    } else if n == 5 {
        '5'
    } else if n == 6 {
        '6'
    } else if n == 7 {
        '7'
    } else if n == 8 {
        '8'
    } else {
        '9'
    }
}

fn digit_char(n: u64) -> (r: char)
    requires
        n < 10,
    ensures
        r == digit(n as int),
{
    match n {
        0 => '0',
        1 => '1',
        2 => '2',
        3 => '3',
        4 => '4',
        5 => '5',
        6 => '6',
        7 => '7',
        8 => '8',
        _ => '9',
    }
}

/// A number in decimal.
pub open spec fn decimal_text(n: nat) -> Seq<char>
    decreases n,
{
    if n < 10 {
        seq![digit(n as int)]
    } else {
        decimal_text(n / 10).push(digit((n % 10) as int))
    }
}

/// A number is written with decimal digits alone.
pub proof fn lemma_decimal_digits(n: nat)
    ensures
        forall|i: int|
            0 <= i < decimal_text(n).len() ==> '0' <= #[trigger] decimal_text(n)[i] <= '9',
    decreases n,
{
    if n >= 10 {
        lemma_decimal_digits(n / 10);
        let before = decimal_text(n / 10);
        assert forall|i: int| 0 <= i < decimal_text(n).len() implies '0'
            <= #[trigger] decimal_text(n)[i] <= '9' by {
            if i < before.len() {
                assert(decimal_text(n)[i] == before[i]);
            }
        }
    }
}

pub fn decimal(n: u64) -> (r: String)
    ensures
        r@ == decimal_text(n as nat),
    decreases n,
{
    let mut r = if n < 10 {
        String::new()
    } else {
        decimal(n / 10)
    };
    r.push(digit_char(n % 10));
    proof {
        assert(Seq::<char>::empty().push(digit(n as int)) =~= seq![digit(n as int)]);
    }
    r
}

/// A signed number in decimal.
pub open spec fn signed_text(n: int) -> Seq<char> {
    if n < 0 {
        "-"@ + decimal_text((-n) as nat)
    } else {
        decimal_text(n as nat)
    }
}

pub fn signed_decimal(n: i64) -> (r: String)
    ensures
        r@ == signed_text(n as int),
{
    if n < 0 {
        let mut r = "-".to_owned();
        let size: i128 = -(n as i128);
        r.append(&decimal(size as u64));
        r
    } else {
        decimal(n as u64)
    }
}

pub open spec fn digit_value(c: char) -> Option<nat> {
    if is_digit(c) {
        Some((c as u8 - 48) as nat)
    } else {
        None
    }
}

/// The number a run of decimal digits writes; nothing when some character
/// is not a digit.
pub open spec fn digits_value(s: Seq<char>) -> Option<nat>
    decreases s.len(),
{
    if s.len() == 0 {
        Some(0)
    } else {
        match (digits_value(s.drop_last()), digit_value(s.last())) {
            (Some(n), Some(d)) => Some(10 * n + d),
            _ => None,
        }
    }
}

/// The digits of a number as it is written: an optional plus sign may
/// stand before them.
pub open spec fn number_body(s: Seq<char>) -> Seq<char> {
    if s.len() > 0 && s[0] == '+' {
        s.drop_first()
    } else {
        s
    }
}

/// The number `s` writes, when it writes one of at most `max`: an optional
/// plus sign, then one or more decimal digits.
pub open spec fn parsed_number(s: Seq<char>, max: nat) -> Option<nat> {
    let body = number_body(s);
    if body.len() == 0 {
        None
    } else {
        match digits_value(body) {
            Some(n) => if n <= max {
                Some(n)
            } else {
                None
            },
            None => None,
        }
    }
}

proof fn lemma_digits_prefix(s: Seq<char>, k: int)
    requires
        0 <= k <= s.len(),
    ensures
        match digits_value(s.take(k)) {
            Some(n) => digits_value(s) matches Some(m) ==> n <= m,
            None => digits_value(s) is None,
        },
    decreases s.len() - k,
{
    if k == s.len() {
        assert(s.take(k) =~= s);
    } else {
        assert(s.take(k + 1).drop_last() =~= s.take(k));
        lemma_digits_prefix(s, k + 1);
    }
}

/// Read a decimal number of at most `max`.
pub fn parse_number(s: &Vec<char>, max: u64) -> (r: Option<u64>)
    ensures
        match r {
            Some(n) => parsed_number(s@, max as nat) == Some(n as nat),
            None => parsed_number(s@, max as nat) is None,
        },
{
    let from: usize = if s.len() > 0 && s[0] == '+' {
        1
    } else {
        0
    };
    let ghost body = number_body(s@);
    proof {
        assert(body =~= s@.skip(from as int));
    }
    if from == s.len() {
        return None;
    }
    let mut value: u64 = 0;
    let mut i: usize = from;
    proof {
        assert(body.take(0) =~= Seq::<char>::empty());
    }
    while i < s.len()
        invariant
            from <= i <= s@.len(),
            from < s@.len(),
            body == number_body(s@),
            body == s@.skip(from as int),
            value <= max,
            digits_value(body.take(i - from)) == Some(value as nat),
        decreases s@.len() - i,
    {
        let c = s[i];
        proof {
            let k = i - from;
            assert(body.take(k + 1).drop_last() =~= body.take(k));
            assert(body.take(k + 1).last() == c);
            lemma_digits_prefix(body, k + 1);
        }
        if !('0' <= c && c <= '9') {
            return None;
        }
        let next: u128 = (value as u128) * 10 + ((c as u8 - 48) as u128);
        if next > max as u128 {
            return None;
        }
        value = next as u64;
        i += 1;
    }
    proof {
        assert(body.take(i - from) =~= body);
    }
    Some(value)
}

// ---- Building text ----------------------------------------------------------

/// Texts joined with a separator between each two.
pub open spec fn joined(parts: Seq<Seq<char>>, separator: Seq<char>) -> Seq<char>
    decreases parts.len(),
{
    if parts.len() == 0 {
        Seq::empty()
    } else if parts.len() == 1 {
        parts[0]
    } else {
        joined(parts.drop_last(), separator) + separator + parts.last()
    }
}

pub fn join(parts: &Vec<String>, separator: &str) -> (r: String)
    ensures
        r@ == joined(texts(parts@), separator@),
{
    let mut r = String::new();
    let mut i: usize = 0;
    let ghost all = texts(parts@);
    proof {
        assert(all.take(0) =~= Seq::<Seq<char>>::empty());
    }
    while i < parts.len()
        invariant
            i <= parts@.len(),
            all == texts(parts@),
            r@ == joined(all.take(i as int), separator@),
        decreases parts@.len() - i,
    {
        if i > 0 {
            r.append(separator);
        }
        r.append(&parts[i]);
        proof {
            let next = all.take(i + 1);
            assert(next.drop_last() =~= all.take(i as int));
            assert(next.last() == parts@[i as int]@);
            if i == 0 {
                assert(r@ =~= next[0]);
            }
        }
        i += 1;
    }
    proof {
        assert(all.take(i as int) =~= all);
    }
    r
}

/// The order of strings, equal ones included.
pub open spec fn text_ordered() -> spec_fn(Seq<char>, Seq<char>) -> bool {
    |a: Seq<char>, b: Seq<char>| a == b || text_less(a, b)
}

pub proof fn lemma_text_ordered()
    ensures
        total_ordering(text_ordered()),
{
    let leq = text_ordered();
    assert forall|a: Seq<char>, b: Seq<char>| #[trigger] leq(a, b) && #[trigger] leq(b, a) implies a
        == b by {
        if a != b {
            lemma_text_transitive(a, b, a);
            lemma_text_irreflexive(a);
        }
    }
    assert forall|a: Seq<char>, b: Seq<char>, c: Seq<char>| #[trigger]
        leq(a, b) && #[trigger] leq(b, c) implies leq(a, c) by {
        if a != b && b != c {
            lemma_text_transitive(a, b, c);
        }
    }
    assert forall|a: Seq<char>, b: Seq<char>| #[trigger] leq(a, b) || #[trigger] leq(b, a) by {
        lemma_text_total(a, b);
    }
}

proof fn lemma_insert_sorted(s: Seq<Seq<char>>, at: int, x: Seq<char>)
    requires
        sorted_by(s, text_ordered()),
        0 <= at <= s.len(),
        forall|j: int| 0 <= j < at ==> !text_less(x, #[trigger] s[j]),
        at < s.len() ==> text_less(x, s[at]),
    ensures
        sorted_by(s.insert(at, x), text_ordered()),
        s.insert(at, x).to_multiset() == s.to_multiset().insert(x),
{
    broadcast use group_to_multiset_ensures;

    let leq = text_ordered();
    let t = s.insert(at, x);
    lemma_text_ordered();
    assert forall|i: int, j: int| 0 <= i < j < t.len() implies leq(#[trigger] t[i], #[trigger] t[j]) by {
        if i < at {
            assert(t[i] == s[i]);
        }
        if j < at {
            assert(leq(s[i], s[j]));
        } else if j == at {
            lemma_text_total(x, s[i]);
        } else {
            assert(t[j] == s[j - 1]);
            if i == at {
                if at < j - 1 {
                    assert(leq(s[at], s[j - 1]));
                }
                if s[at] != s[j - 1] {
                    lemma_text_transitive(x, s[at], s[j - 1]);
                }
            } else if i < at {
                assert(leq(s[i], s[j - 1]));
            } else {
                assert(t[i] == s[i - 1]);
                assert(leq(s[i - 1], s[j - 1]));
            }
        }
    }
    assert(t =~= s.take(at).push(x) + s.skip(at));
    assert(s =~= s.take(at) + s.skip(at));
    vstd::seq_lib::lemma_multiset_commutative(s.take(at).push(x), s.skip(at));
    vstd::seq_lib::lemma_multiset_commutative(s.take(at), s.skip(at));
    assert(t.to_multiset() =~= s.to_multiset().insert(x));
}

/// Texts in order.
pub fn sort_texts(list: &Vec<String>) -> (r: Vec<String>)
    ensures
        texts(r@) == texts(list@).sort_by(text_ordered()),
{
    broadcast use group_to_multiset_ensures;

    let ghost all = texts(list@);
    let mut r: Vec<String> = Vec::new();
    let mut i: usize = 0;
    proof {
        assert(all.take(0) =~= texts(r@));
    }
    while i < list.len()
        invariant
            i <= list@.len(),
            all == texts(list@),
            sorted_by(texts(r@), text_ordered()),
            texts(r@).to_multiset() == all.take(i as int).to_multiset(),
        decreases list@.len() - i,
    {
        let mut at: usize = 0;
        let ghost before = texts(r@);
        while at < r.len() && !less(&list[i], &r[at])
            invariant
                at <= r@.len(),
                before == texts(r@),
                forall|j: int| 0 <= j < at ==> !text_less(list@[i as int]@, #[trigger] before[j]),
            decreases r@.len() - at,
        {
            at += 1;
        }
        r.insert(at, list[i].clone());
        proof {
            assert(texts(r@) =~= before.insert(at as int, all[i as int]));
            lemma_insert_sorted(before, at as int, all[i as int]);
            assert(all.take(i + 1) =~= all.take(i as int).push(all[i as int]));
        }
        i += 1;
    }
    proof {
        assert(all.take(i as int) =~= all);
        lemma_text_ordered();
        all.lemma_sort_by_ensures(text_ordered());
        vstd::seq_lib::lemma_sorted_unique(texts(r@), all.sort_by(text_ordered()), text_ordered());
    }
    r
}

/// The text `{:?}` formatting gives a string: quoted, with escapes.
pub uninterp spec fn debug_text(text: Seq<char>) -> Seq<char>;

/// A string as `{:?}` formats it: `format!` with the `Debug` of `str`,
/// whose result depends on the text alone.
#[verifier::external_body]
pub(crate) fn quoted(text: &str) -> (r: String)
    ensures
        r@ == debug_text(text@),
{
    format!("{:?}", text)
}

/// A path below another, as text: an absolute `part` stands alone.
pub open spec fn path_text(base: Seq<char>, part: Seq<char>) -> Seq<char> {
    if part.len() > 0 && part[0] == '/' {
        part
    } else if base.len() == 0 || base.last() == '/' {
        base + part
    } else {
        base + "/"@ + part
    }
}

pub fn join_path(base: &str, part: &str) -> (r: String)
    ensures
        r@ == path_text(base@, part@),
{
    let below = chars_of(part);
    if below.len() > 0 && below[0] == '/' {
        return part.to_owned();
    }
    let over = chars_of(base);
    let mut r = base.to_owned();
    if over.len() > 0 && over[over.len() - 1] != '/' {
        r.append("/");
    }
    r.append(part);
    r
}

// ---- Laws -------------------------------------------------------------------

/// A number is read back as it was written, where it is not too large.
pub proof fn law_numbers_are_read_back(n: nat, max: nat)
    ensures
        n <= max ==> parsed_number(decimal_text(n), max) == Some(n),
        n > max ==> parsed_number(decimal_text(n), max) is None,
{
    lemma_digits_are_read_back(n);
    lemma_decimal_digits(n);
    assert(decimal_text(n).len() > 0);
    assert(number_body(decimal_text(n)) == decimal_text(n));
}

proof fn lemma_digits_are_read_back(n: nat)
    ensures
        digits_value(decimal_text(n)) == Some(n),
        decimal_text(n).len() > 0,
    decreases n,
{
    let text = decimal_text(n);
    if n < 10 {
        assert(text.drop_last() =~= Seq::<char>::empty());
        assert(digits_value(text.drop_last()) == Some(0nat));
        assert(digit_value(text.last()) == Some(n));
    } else {
        lemma_digits_are_read_back(n / 10);
        assert(text.drop_last() =~= decimal_text(n / 10));
        assert(digit_value(text.last()) == Some(n % 10));
    }
}

/// A path is below its base unless it is absolute, and one slash divides
/// the two.
pub proof fn law_paths_are_below_their_base(base: Seq<char>, part: Seq<char>)
    ensures
        part.len() > 0 && part[0] == '/' ==> path_text(base, part) == part,
        !(part.len() > 0 && part[0] == '/') ==> base.is_prefix_of(path_text(base, part))
            && part.is_suffix_of(path_text(base, part)),
        !(part.len() > 0 && part[0] == '/') && base.len() > 0 && base.last() != '/' ==> path_text(
            base,
            part,
        ) == base.push('/') + part,
        !(part.len() > 0 && part[0] == '/') && base.len() > 0 && base.last() == '/' ==> path_text(
            base,
            part,
        ) == base + part,
{
    reveal_strlit("/");
    let path = path_text(base, part);
    assert("/"@ =~= seq!['/']);
    if !(part.len() > 0 && part[0] == '/') {
        assert(base =~= path.subrange(0, base.len() as int));
        assert(part =~= path.subrange(path.len() - part.len(), path.len() as int));
        assert(base.push('/') + part =~= base + "/"@ + part);
    }
}

/// Digits are `0` to `9`, in this order, and a number below zero is written
/// with a minus sign.
pub proof fn law_decimal_digits(n: int)
    ensures
        0 <= n < 10 ==> digit(n) == "0123456789"@[n],
        n < 0 ==> signed_text(n) == seq!['-'] + decimal_text((-n) as nat),
        n >= 0 ==> signed_text(n) == decimal_text(n as nat),
{
    reveal_strlit("0123456789");
    reveal_strlit("-");
    assert("-"@ =~= seq!['-']);
}

/// Changing case changes ASCII letters alone, each to its other form.
pub proof fn law_case_is_changed_for_letters_alone(s: Seq<char>, i: int)
    requires
        0 <= i < s.len(),
    ensures
        lower_text(s).len() == s.len(),
        upper_text(s).len() == s.len(),
        'A' <= s[i] && s[i] <= 'Z' ==> lower_text(s)[i] as int == s[i] as int + 32,
        !('A' <= s[i] && s[i] <= 'Z') ==> lower_text(s)[i] == s[i],
        'a' <= s[i] && s[i] <= 'z' ==> upper_text(s)[i] as int == s[i] as int - 32,
        !('a' <= s[i] && s[i] <= 'z') ==> upper_text(s)[i] == s[i],
{
}

/// Whether a text ends or begins where white space does.
pub open spec fn is_bare(s: Seq<char>) -> bool {
    s.len() > 0 ==> !is_space(s[0]) && !is_space(s.last())
}

/// Whether every character from `i` to `j` is white space.
pub open spec fn is_blank(s: Seq<char>, i: int, j: int) -> bool {
    forall|k: int| i <= k < j ==> is_space(#[trigger] s[k])
}

proof fn lemma_leading_space(s: Seq<char>) -> (i: int)
    ensures
        0 <= i <= s.len(),
        without_leading_space(s) == s.skip(i),
        is_blank(s, 0, i),
        i < s.len() ==> !is_space(s[i]),
    decreases s.len(),
{
    if s.len() > 0 && is_space(s[0]) {
        let j = lemma_leading_space(s.drop_first());
        assert(s.drop_first().skip(j) =~= s.skip(j + 1));
        assert forall|k: int| 0 <= k < j + 1 implies is_space(#[trigger] s[k]) by {
            if k > 0 {
                assert(s.drop_first()[k - 1] == s[k]);
            }
        }
        if j < s.drop_first().len() {
            assert(s.drop_first()[j] == s[j + 1]);
        }
        j + 1
    } else {
        assert(s.skip(0) =~= s);
        0
    }
}

proof fn lemma_trailing_space(s: Seq<char>) -> (i: int)
    ensures
        0 <= i <= s.len(),
        without_trailing_space(s) == s.take(i),
        is_blank(s, i, s.len() as int),
        i > 0 ==> !is_space(s[i - 1]),
    decreases s.len(),
{
    if s.len() > 0 && is_space(s.last()) {
        let j = lemma_trailing_space(s.drop_last());
        assert(s.drop_last().take(j) =~= s.take(j));
        assert forall|k: int| j <= k < s.len() implies is_space(#[trigger] s[k]) by {
            if k < s.len() - 1 {
                assert(s.drop_last()[k] == s[k]);
            }
        }
        if j > 0 {
            assert(s.drop_last()[j - 1] == s[j - 1]);
        }
        j
    } else {
        assert(s.take(s.len() as int) =~= s);
        s.len() as int
    }
}

/// Trimming takes away the white space around a text, all of it and nothing
/// else.
pub proof fn law_trimming_takes_space_alone(s: Seq<char>)
    ensures
        is_bare(trimmed(s)),
        exists|i: int, j: int|
            0 <= i <= j <= s.len() && #[trigger] s.subrange(i, j) == trimmed(s) && is_blank(
                s,
                0,
                i,
            ) && is_blank(s, j, s.len() as int),
{
    let i = lemma_leading_space(s);
    let rest = s.skip(i);
    let n = lemma_trailing_space(rest);
    let j = i + n;
    assert(rest.take(n) =~= s.subrange(i, j));
    assert forall|k: int| j <= k < s.len() implies is_space(#[trigger] s[k]) by {
        assert(rest[k - i] == s[k]);
    }
    assert(is_blank(s, j, s.len() as int));
    if n > 0 {
        assert(rest[0] == s[i]);
        assert(rest.take(n)[0] == s[i]);
        assert(rest.take(n).last() == rest[n - 1]);
    }
}

/// A text is divided into words by white space alone: none makes one word
/// of it, and what stands before and after a space is divided apart.
pub proof fn law_words_are_divided_by_space(a: Seq<char>, c: char, b: Seq<char>)
    ensures
        words(Seq::<char>::empty()) == Seq::<Seq<char>>::empty(),
        is_space(c) ==> words(a.push(c) + b) == words(a) + words(b),
        a.len() > 0 && (forall|i: int| 0 <= i < a.len() ==> !is_space(#[trigger] a[i])) ==> words(a)
            == seq![a],
{
    if is_space(c) {
        lemma_words_apart(a, c, b);
        assert(words(a.push(c) + b) =~= words(a) + words(b));
    }
    if a.len() > 0 && forall|i: int| 0 <= i < a.len() ==> !is_space(#[trigger] a[i]) {
        lemma_one_word(a);
        assert(words(a) =~= seq![a]);
    }
}

proof fn lemma_words_apart(a: Seq<char>, c: char, b: Seq<char>)
    requires
        is_space(c),
    ensures
        words_upto(a.push(c) + b).0 == words(a) + words_upto(b).0,
        words_upto(a.push(c) + b).1 == words_upto(b).1,
    decreases b.len(),
{
    let all = a.push(c) + b;
    if b.len() == 0 {
        assert(all =~= a.push(c));
        assert(all.drop_last() =~= a);
        assert(words(a) + words_upto(b).0 =~= words(a));
    } else {
        lemma_words_apart(a, c, b.drop_last());
        assert(all.drop_last() =~= a.push(c) + b.drop_last());
        assert(all.last() == b.last());
        let before = words_upto(b.drop_last());
        assert((words(a) + before.0).push(before.1) =~= words(a) + before.0.push(before.1));
    }
}

proof fn lemma_one_word(a: Seq<char>)
    requires
        forall|i: int| 0 <= i < a.len() ==> !is_space(#[trigger] a[i]),
    ensures
        words_upto(a).0 == Seq::<Seq<char>>::empty(),
        words_upto(a).1 == a,
    decreases a.len(),
{
    if a.len() > 0 {
        assert forall|i: int| 0 <= i < a.drop_last().len() implies !is_space(
            #[trigger] a.drop_last()[i],
        ) by {
            assert(a.drop_last()[i] == a[i]);
        }
        lemma_one_word(a.drop_last());
        assert(a.drop_last().push(a.last()) =~= a);
    } else {
        assert(a =~= Seq::<char>::empty());
    }
}

/// A text is divided by a separator alone: without one it is one piece, and
/// what stands before and after one is divided apart.
pub proof fn law_pieces_are_divided_by_separators(a: Seq<char>, separator: char, b: Seq<char>)
    ensures
        pieces(a.push(separator) + b, separator) == pieces(a, separator) + pieces(b, separator),
        (forall|i: int| 0 <= i < a.len() ==> (#[trigger] a[i]) != separator) ==> pieces(
            a,
            separator,
        ) == seq![a],
    decreases b.len(), a.len(),
{
    let all = a.push(separator) + b;
    if b.len() == 0 {
        assert(all =~= a.push(separator));
        assert(all.drop_last() =~= a);
        assert(pieces(all, separator) =~= pieces(a, separator) + pieces(b, separator));
    } else {
        law_pieces_are_divided_by_separators(a, separator, b.drop_last());
        assert(all.drop_last() =~= a.push(separator) + b.drop_last());
        assert(all.last() == b.last());
        lemma_pieces(b.drop_last(), separator);
        assert(pieces(all, separator) =~= pieces(a, separator) + pieces(b, separator));
    }
    if forall|i: int| 0 <= i < a.len() ==> (#[trigger] a[i]) != separator {
        lemma_one_piece(a, separator);
    }
}

proof fn lemma_one_piece(a: Seq<char>, separator: char)
    requires
        forall|i: int| 0 <= i < a.len() ==> (#[trigger] a[i]) != separator,
    ensures
        pieces(a, separator) == seq![a],
    decreases a.len(),
{
    if a.len() > 0 {
        let before = a.drop_last();
        assert forall|i: int| 0 <= i < before.len() implies (#[trigger] before[i])
            != separator by {
            assert(before[i] == a[i]);
        }
        lemma_one_piece(before, separator);
        assert(a[a.len() - 1] != separator);
        assert(before.push(a.last()) =~= a);
        assert(pieces(a, separator) =~= seq![a]);
    } else {
        assert(a =~= Seq::<char>::empty());
    }
}

/// Texts that were joined are divided again where they were joined.
pub proof fn law_joined_texts_are_divided_again(parts: Seq<Seq<char>>, separator: char)
    requires
        parts.len() > 0,
        forall|i: int, j: int|
            0 <= i < parts.len() && 0 <= j < parts[i].len() ==> (#[trigger] parts[i][j])
                != separator,
    ensures
        pieces(joined(parts, seq![separator]), separator) == parts,
    decreases parts.len(),
{
    let last = parts.last();
    assert forall|j: int| 0 <= j < last.len() implies (#[trigger] last[j]) != separator by {
        assert(parts[parts.len() - 1][j] != separator);
    }
    lemma_one_piece(last, separator);
    if parts.len() > 1 {
        let before = parts.drop_last();
        assert forall|i: int, j: int|
            0 <= i < before.len() && 0 <= j < before[i].len() implies (#[trigger] before[i][j])
            != separator by {
            assert(before[i] == parts[i]);
            assert(parts[i][j] != separator);
        }
        law_joined_texts_are_divided_again(before, separator);
        let head = joined(before, seq![separator]);
        assert(joined(parts, seq![separator]) =~= head.push(separator) + last);
        law_pieces_are_divided_by_separators(head, separator, last);
        assert(before + seq![last] =~= parts);
    } else {
        assert(parts =~= seq![last]);
    }
}

/// A text is found at the first place it stands, and nowhere only where it
/// stands nowhere.
pub proof fn law_texts_are_found_where_they_first_stand(s: Seq<char>, needle: Seq<char>, i: int)
    requires
        0 <= i <= s.len(),
    ensures
        match find_from(s, needle, i) {
            Some(k) => i <= k && k + needle.len() <= s.len() && s.subrange(k, k + needle.len())
                == needle && forall|j: int|
                i <= j < k ==> !needle.is_prefix_of(#[trigger] s.skip(j)),
            None => forall|j: int|
                i <= j <= s.len() ==> !needle.is_prefix_of(#[trigger] s.skip(j)),
        },
    decreases s.len() - i,
{
    if needle.is_prefix_of(s.skip(i)) {
        assert(s.subrange(i, i + needle.len()) =~= s.skip(i).subrange(0, needle.len() as int));
    } else if i < s.len() {
        law_texts_are_found_where_they_first_stand(s, needle, i + 1);
    } else {
        assert(find_from(s, needle, i + 1) is None);
    }
}

/// What is left without a prefix does not begin with it, and is the end of
/// the text.
pub proof fn law_prefixes_are_taken_away(s: Seq<char>, prefix: Seq<char>)
    requires
        prefix.len() > 0,
    ensures
        !prefix.is_prefix_of(without_prefix(s, prefix)),
        without_prefix(s, prefix).is_suffix_of(s),
        without_prefix(prefix + s, prefix) == without_prefix(s, prefix),
        !prefix.is_prefix_of(s) ==> without_prefix(s, prefix) == s,
    decreases s.len(),
{
    assert(prefix =~= (prefix + s).subrange(0, prefix.len() as int));
    assert((prefix + s).skip(prefix.len() as int) =~= s);
    if prefix.is_prefix_of(s) {
        let rest = s.skip(prefix.len() as int);
        law_prefixes_are_taken_away(rest, prefix);
        let left = without_prefix(rest, prefix);
        assert(left =~= s.subrange(s.len() - left.len(), s.len() as int)) by {
            assert(left =~= rest.subrange(rest.len() - left.len(), rest.len() as int));
        }
    } else {
        assert(s =~= s.subrange(0, s.len() as int));
    }
}

/// Byte strings are ordered at the first place where they differ, and one
/// that ends there is before the other.
pub proof fn law_bytes_are_ordered_where_they_differ(a: Seq<u8>, b: Seq<u8>, k: nat)
    requires
        k <= a.len(),
        k <= b.len(),
        forall|i: int| 0 <= i < k ==> (#[trigger] a[i]) == b[i],
    ensures
        k == a.len() && k < b.len() ==> bytes_less(a, b) && !bytes_less(b, a),
        k < a.len() && k < b.len() && a[k as int] < b[k as int] ==> bytes_less(a, b)
            && !bytes_less(b, a),
        a == b ==> !bytes_less(a, b),
    decreases k,
{
    if k > 0 {
        assert(a[0] == b[0]);
        let left = a.drop_first();
        let right = b.drop_first();
        assert forall|i: int| 0 <= i < k - 1 implies (#[trigger] left[i]) == right[i] by {
            assert(a[i + 1] == b[i + 1]);
        }
        law_bytes_are_ordered_where_they_differ(left, right, (k - 1) as nat);
    }
    if a == b {
        lemma_bytes_irreflexive(a);
    }
}

} // verus!
