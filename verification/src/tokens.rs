use vstd::prelude::*;

verus! {

/// The characters that separate tokens inside a tag string.
pub open spec fn is_space(c: char) -> bool {
    c == ' ' || c == '\t' || c == '\n' || c == '\r' || c == '\u{c}'
}

/// Left-to-right tokenisation of `s`, where `cur` is the partial token read so far.
pub open spec fn tokens_from(s: Seq<char>, cur: Seq<char>) -> Seq<Seq<char>>
    decreases s.len(),
{
    if s.len() == 0 {
        if cur.len() == 0 {
            Seq::empty()
        } else {
            seq![cur]
        }
    } else if is_space(s[0]) {
        if cur.len() == 0 {
            tokens_from(s.drop_first(), Seq::empty())
        } else {
            seq![cur] + tokens_from(s.drop_first(), Seq::empty())
        }
    } else {
        tokens_from(s.drop_first(), cur.push(s[0]))
    }
}

/// The whitespace-separated tokens of a tag string, in order of appearance.
pub open spec fn tokens_of(s: Seq<char>) -> Seq<Seq<char>> {
    tokens_from(s, Seq::empty())
}

/// The set of tokens a tag string names.
pub open spec fn token_set(s: Seq<char>) -> Set<Seq<char>> {
    tokens_of(s).to_set()
}

fn space_char(c: char) -> (r: bool)
    ensures
        r == is_space(c),
{
    c == ' ' || c == '\t' || c == '\n' || c == '\r' || c == '\u{c}'
}

/// Split a tag string into its whitespace-separated tokens.
pub fn split_tokens(s: &str) -> (r: Vec<String>)
    ensures
        r.deep_view() == tokens_of(s@),
{
    let n = s.unicode_len();
    let mut r: Vec<String> = Vec::new();
    let mut start: usize = 0;
    let mut i: usize = 0;
    assert(s@.skip(0) =~= s@);
    assert(s@.subrange(0, 0) =~= Seq::<char>::empty());
    assert(Seq::<Seq<char>>::empty() + tokens_from(s@, Seq::empty()) =~= tokens_of(s@));
    assert(r.deep_view() =~= Seq::<Seq<char>>::empty());
    while i < n
        invariant
            n == s@.len(),
            start <= i <= n,
            r.deep_view() + tokens_from(s@.skip(i as int), s@.subrange(start as int, i as int))
                =~= tokens_of(s@),
        decreases n - i,
    {
        let ghost rest = s@.skip(i as int);
        let ghost cur = s@.subrange(start as int, i as int);
        assert(rest[0] == s@[i as int]);
        assert(rest.drop_first() =~= s@.skip(i as int + 1));
        let c = s.get_char(i);
        if space_char(c) {
            if start < i {
                let tok = s.substring_char(start, i);
                let owned = String::from_str(tok);
                assert(owned@ == cur);
                let ghost before = r.deep_view();
                r.push(owned);
                assert(r.deep_view() =~= before.push(cur));
                assert(before.push(cur) + tokens_from(rest.drop_first(), Seq::empty())
                    =~= before + (seq![cur] + tokens_from(rest.drop_first(), Seq::empty())));
            }
            start = i + 1;
            assert(s@.subrange(start as int, i as int + 1) =~= Seq::<char>::empty());
        } else {
            assert(s@.subrange(start as int, i as int + 1) =~= cur.push(s@[i as int]));
        }
        i += 1;
    }
    assert(s@.skip(n as int) =~= Seq::<char>::empty());
    if start < n {
        let tok = s.substring_char(start, n);
        let owned = String::from_str(tok);
        let ghost before = r.deep_view();
        r.push(owned);
        assert(r.deep_view() =~= before.push(s@.subrange(start as int, n as int)));
    }
    assert(r.deep_view() =~= tokens_of(s@));
    r
}

} // verus!
