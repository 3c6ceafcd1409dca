use vstd::prelude::*;

verus! {

/// The views of a sequence of strings.
pub open spec fn strings_view(v: Seq<String>) -> Seq<Seq<char>> {
    v.map_values(|s: String| s@)
}

/// The views of a sequence of string lists.
pub open spec fn nested_view(v: Seq<Vec<String>>) -> Seq<Seq<Seq<char>>> {
    v.map_values(|l: Vec<String>| strings_view(l@))
}

/// Pushing an element adds exactly that element to what a sequence contains.
pub proof fn lemma_push_contains<A>(s: Seq<A>, x: A)
    ensures
        forall|e: A| #[trigger] s.push(x).contains(e) <==> (s.contains(e) || e == x),
{
    assert forall|e: A| #[trigger] s.push(x).contains(e) <==> (s.contains(e) || e == x) by {
        if s.contains(e) {
            let k = choose|k: int| 0 <= k < s.len() && s[k] == e;
            assert(s.push(x)[k] == e);
        }
        if e == x {
            assert(s.push(x)[s.len() as int] == e);
        }
        if s.push(x).contains(e) {
            let k = choose|k: int| 0 <= k < s.push(x).len() && s.push(x)[k] == e;
            if k < s.len() {
                assert(s[k] == e);
            }
        }
    }
}

/// Pushing an element that is not there keeps a sequence free of duplicates.
pub proof fn lemma_push_no_duplicates<A>(s: Seq<A>, x: A)
    requires
        s.no_duplicates(),
        !s.contains(x),
    ensures
        s.push(x).no_duplicates(),
{
    assert forall|i: int, j: int| 0 <= i < j < s.push(x).len() implies s.push(x)[i] != s.push(
        x,
    )[j] by {
        if j == s.len() {
            assert(s[i] == s.push(x)[i]);
        }
    }
}

/// Growing a prefix by one element adds exactly that element.
pub proof fn lemma_prefix_step<A>(s: Seq<A>, i: int)
    requires
        0 <= i < s.len(),
    ensures
        s.subrange(0, i + 1) == s.subrange(0, i).push(s[i]),
        forall|e: A| #[trigger]
            s.subrange(0, i + 1).contains(e) <==> (s.subrange(0, i).contains(e) || e == s[i]),
{
    assert(s.subrange(0, i + 1) == s.subrange(0, i).push(s[i]));
    lemma_push_contains(s.subrange(0, i), s[i]);
}

/// Whether `list` holds a string equal to `s`.
pub fn contains_string(list: &Vec<String>, s: &String) -> (found: bool)
    ensures
        found == strings_view(list@).contains(s@),
{
    for i in 0..list.len()
        invariant
            forall|j: int| 0 <= j < i ==> list@[j]@ != s@,
    {
        if list[i] == *s {
            assert(strings_view(list@)[i as int] == s@);
            return true;
        }
    }
    proof {
        if strings_view(list@).contains(s@) {
            let k = choose|k: int| 0 <= k < strings_view(list@).len() && strings_view(list@)[k] == s@;
            assert(list@[k]@ == s@);
        }
    }
    false
}

/// Appends copies of the strings of `other` to `list`.
pub fn append_strings(list: &mut Vec<String>, other: &Vec<String>)
    ensures
        strings_view(final(list)@) == strings_view(old(list)@) + strings_view(other@),
{
    let ghost start = list@;
    for i in 0..other.len()
        invariant
            strings_view(list@) == strings_view(start) + strings_view(other@).take(i as int),
    {
        let ghost before = list@;
        list.push(other[i].clone());
        assert(strings_view(list@) == strings_view(before).push(other@[i as int]@));
        assert(strings_view(other@).take(i + 1) == strings_view(other@).take(i as int).push(
            other@[i as int]@,
        ));
    }
    assert(strings_view(other@).take(other@.len() as int) == strings_view(other@));
}

/// Appends `s` unless an equal string is already there.
pub fn push_unique_string(list: &mut Vec<String>, s: String)
    ensures
        strings_view(old(list)@).no_duplicates() ==> strings_view(final(list)@).no_duplicates(),
        forall|e: Seq<char>| #[trigger]
            strings_view(final(list)@).contains(e) <==> (strings_view(old(list)@).contains(e) || e
                == s@),
{
    if !contains_string(list, &s) {
        let ghost before = list@;
        let ghost sv = s@;
        list.push(s);
        assert(strings_view(list@) == strings_view(before).push(sv));
        proof {
            lemma_push_contains(strings_view(before), sv);
        }
    }
}

} // verus!
