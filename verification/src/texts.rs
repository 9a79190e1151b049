//! The sample passages of the free typing test.

use vstd::prelude::*;

verus! {

/// A passage to type, with its title.
pub struct SampleText {
    pub title: &'static str,
    pub content: &'static str,
}

/// How many texts there are.
pub const TEXT_COUNT: usize = 5;

/// The title of text `i`.
pub open spec fn text_title(i: int) -> Seq<char> {
    if i == 0 {
        "Pangram"@
    } else if i == 1 {
        "Practice"@
    } else if i == 2 {
        "Programming"@
    } else if i == 3 {
        "Story"@
    } else {
        "Advice"@
    }
}

/// The content of text `i`.
pub open spec fn text_content(i: int) -> Seq<char> {
    if i == 0 {
        "The quick brown fox jumps over the lazy dog near the riverbank."@
    } else if i == 1 {
        "Practice makes perfect, but only when you practice the right way."@
    } else if i == 2 {
        "Programming is the art of telling a computer what you want it to do."@
    } else if i == 3 {
        "In a quiet village a small cat learned to type at amazing speeds."@
    } else {
        "Slow is smooth, and smooth is fast. Focus on accuracy before speed."@
    }
}

/// Text `i`.
pub fn sample_text(i: usize) -> (l: SampleText)
    requires
        i < TEXT_COUNT,
    ensures
        l.title@ == text_title(i as int),
        l.content@ == text_content(i as int),
{
    match i {
        0 => SampleText { title: "Pangram", content: "The quick brown fox jumps over the lazy dog near the riverbank." },
        1 => SampleText { title: "Practice", content: "Practice makes perfect, but only when you practice the right way." },
        2 => SampleText { title: "Programming", content: "Programming is the art of telling a computer what you want it to do." },
        3 => SampleText { title: "Story", content: "In a quiet village a small cat learned to type at amazing speeds." },
        _ => SampleText { title: "Advice", content: "Slow is smooth, and smooth is fast. Focus on accuracy before speed." },
    }
}

/// All the texts, in order.
pub fn texts() -> (v: Vec<SampleText>)
    ensures
        v@.len() == TEXT_COUNT,
        forall|i: int| 0 <= i < TEXT_COUNT ==> v@[i].title@ == text_title(i) && v@[i].content@ == text_content(i),
{
    let mut v: Vec<SampleText> = Vec::new();
    let mut i: usize = 0;
    while i < TEXT_COUNT
        invariant
            i <= TEXT_COUNT,
            v@.len() == i,
            forall|j: int| 0 <= j < i ==> v@[j].title@ == text_title(j) && v@[j].content@ == text_content(j),
        decreases TEXT_COUNT - i,
    {
        let l = sample_text(i);
        v.push(l);
        i += 1;
    }
    v
}

} // verus!
