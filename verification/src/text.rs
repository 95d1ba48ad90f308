use vstd::prelude::*;

verus! {

/// The character sequences of a sequence of strings.
pub open spec fn texts_of(s: Seq<String>) -> Seq<Seq<char>> {
    s.map_values(|x: String| x@)
}

/// Appending one string appends its characters to the text view.
pub proof fn lemma_texts_of_push(s: Seq<String>, x: String)
    ensures
        texts_of(s.push(x)) =~= texts_of(s).push(x@),
{
}

} // verus!
