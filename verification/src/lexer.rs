//! Words of the language.
use vstd::prelude::*;

verus! {

/// Whether a word is a keyword of the language.
pub open spec fn is_keyword_text(word: Seq<char>) -> bool {
    ||| word == "as"@
    ||| word == "const"@
    ||| word == "crate"@
    ||| word == "false"@
    ||| word == "fn"@
    ||| word == "let"@
    ||| word == "match"@
    ||| word == "mod"@
    ||| word == "pub"@
    ||| word == "true"@
    ||| word == "type"@
    ||| word == "use"@
}

/// List the keywords of the language.
pub fn keywords() -> (words: Vec<String>)
    ensures
        forall|i: int| 0 <= i < words@.len() ==> is_keyword_text(#[trigger] words@[i]@),
        forall|word: Seq<char>| #[trigger]
            is_keyword_text(word) ==> exists|i: int|
                0 <= i < words@.len() && #[trigger] words@[i]@ == word,
{
    let words: Vec<String> = vec![
        "as".to_owned(),
        "const".to_owned(),
        "crate".to_owned(),
        "false".to_owned(),
        "fn".to_owned(),
        "let".to_owned(),
        "match".to_owned(),
        "mod".to_owned(),
        "pub".to_owned(),
        "true".to_owned(),
        "type".to_owned(),
        "use".to_owned(),
    ];
    assert(words@[0]@ == "as"@);
    assert(words@[1]@ == "const"@);
    assert(words@[2]@ == "crate"@);
    assert(words@[3]@ == "false"@);
    assert(words@[4]@ == "fn"@);
    assert(words@[5]@ == "let"@);
    assert(words@[6]@ == "match"@);
    assert(words@[7]@ == "mod"@);
    assert(words@[8]@ == "pub"@);
    assert(words@[9]@ == "true"@);
    assert(words@[10]@ == "type"@);
    assert(words@[11]@ == "use"@);
    words
}

/// Check whether a word is a keyword of the language.
pub fn is_keyword(word: &str) -> (result: bool)
    ensures
        result == is_keyword_text(word@),
{
    let words = keywords();
    let mut i: usize = 0;
    while i < words.len()
        invariant
            i <= words.len(),
            forall|j: int| 0 <= j < i ==> #[trigger] words@[j]@ != word@,
            forall|j: int| 0 <= j < words@.len() ==> is_keyword_text(#[trigger] words@[j]@),
        decreases words.len() - i,
    {
        if words[i] == word.to_owned() {
            return true;
        }
        i = i + 1;
    }
    false
}

} // verus!
