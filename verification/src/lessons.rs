//! The lessons of the structured learning path.

use vstd::prelude::*;

verus! {

/// One lesson: a title, what it teaches, and the text to type.
pub struct Lesson {
    pub title: &'static str,
    pub description: &'static str,
    pub text: &'static str,
}

/// How many lessons there are.
pub const LESSON_COUNT: usize = 8;

/// The title of lesson `i`.
pub open spec fn lesson_title(i: int) -> Seq<char> {
    if i == 0 {
        "Lesson 1 — Home Row (Left Hand)"@
    } else if i == 1 {
        "Lesson 2 — Home Row (Right Hand)"@
    } else if i == 2 {
        "Lesson 3 — Home Row Together"@
    } else if i == 3 {
        "Lesson 4 — Top Row"@
    } else if i == 4 {
        "Lesson 5 — Bottom Row"@
    } else if i == 5 {
        "Lesson 6 — The Space Bar"@
    } else if i == 6 {
        "Lesson 7 — Capital Letters"@
    } else {
        "Lesson 8 — Punctuation"@
    }
}

/// The description of lesson `i`.
pub open spec fn lesson_description(i: int) -> Seq<char> {
    if i == 0 {
        "Place your left fingers on A S D F. Keep your eyes on the screen, not on the keyboard. The F key has a small bump so your index finger can find it without looking."@
    } else if i == 1 {
        "Place your right fingers on J K L ;. The J key also has a bump. Always return your fingers to the home row after pressing other keys."@
    } else if i == 2 {
        "Practice the entire home row using both hands. Try to keep a steady rhythm rather than rushing."@
    } else if i == 3 {
        "Reach up from the home row to type Q W E R T Y U I O P. Your fingers should return to the home row after each press."@
    } else if i == 4 {
        "Reach down from the home row to type Z X C V B N M. The bottom row uses the same fingers as the keys directly above them on the home row."@
    } else if i == 5 {
        "Use either thumb to tap the space bar. Most people prefer the right thumb. Keep your other fingers on the home row while doing so."@
    } else if i == 6 {
        "Hold the Shift key with the pinky on the opposite hand to type capital letters. For an A, hold Right Shift; for an L, hold Left Shift."@
    } else {
        "Practice common punctuation marks: comma, period, semicolon, question mark. Your right hand handles most punctuation."@
    }
}

/// The text of lesson `i`.
pub open spec fn lesson_text(i: int) -> Seq<char> {
    if i == 0 {
        "asdf fdsa asdf fdsa aaaa ssss dddd ffff"@
    } else if i == 1 {
        "jkl; ;lkj jkl; ;lkj jjjj kkkk llll ;;;;"@
    } else if i == 2 {
        "ask dad sad lad fall jak ada lass jaffa"@
    } else if i == 3 {
        "the quiet fox quickly types ten quirky words"@
    } else if i == 4 {
        "zoo can vex many brave zebras my common box"@
    } else if i == 5 {
        "a b c d e f g h i j k l m n o p q r s"@
    } else if i == 6 {
        "The Quick Brown Fox Jumps Over The Lazy Dog"@
    } else {
        "Hello, world. How are you? I am fine, thanks."@
    }
}

/// Lesson `i`.
pub fn lesson(i: usize) -> (l: Lesson)
    requires
        i < LESSON_COUNT,
    ensures
        l.title@ == lesson_title(i as int),
        l.description@ == lesson_description(i as int),
        l.text@ == lesson_text(i as int),
{
    match i {
        0 => Lesson { title: "Lesson 1 — Home Row (Left Hand)", description: "Place your left fingers on A S D F. Keep your eyes on the screen, not on the keyboard. The F key has a small bump so your index finger can find it without looking.", text: "asdf fdsa asdf fdsa aaaa ssss dddd ffff" },
        1 => Lesson { title: "Lesson 2 — Home Row (Right Hand)", description: "Place your right fingers on J K L ;. The J key also has a bump. Always return your fingers to the home row after pressing other keys.", text: "jkl; ;lkj jkl; ;lkj jjjj kkkk llll ;;;;" },
        2 => Lesson { title: "Lesson 3 — Home Row Together", description: "Practice the entire home row using both hands. Try to keep a steady rhythm rather than rushing.", text: "ask dad sad lad fall jak ada lass jaffa" },
        3 => Lesson { title: "Lesson 4 — Top Row", description: "Reach up from the home row to type Q W E R T Y U I O P. Your fingers should return to the home row after each press.", text: "the quiet fox quickly types ten quirky words" },
        4 => Lesson { title: "Lesson 5 — Bottom Row", description: "Reach down from the home row to type Z X C V B N M. The bottom row uses the same fingers as the keys directly above them on the home row.", text: "zoo can vex many brave zebras my common box" },
        5 => Lesson { title: "Lesson 6 — The Space Bar", description: "Use either thumb to tap the space bar. Most people prefer the right thumb. Keep your other fingers on the home row while doing so.", text: "a b c d e f g h i j k l m n o p q r s" },
        6 => Lesson { title: "Lesson 7 — Capital Letters", description: "Hold the Shift key with the pinky on the opposite hand to type capital letters. For an A, hold Right Shift; for an L, hold Left Shift.", text: "The Quick Brown Fox Jumps Over The Lazy Dog" },
        _ => Lesson { title: "Lesson 8 — Punctuation", description: "Practice common punctuation marks: comma, period, semicolon, question mark. Your right hand handles most punctuation.", text: "Hello, world. How are you? I am fine, thanks." },
    }
}

/// All the lessons, in order.
pub fn lessons() -> (v: Vec<Lesson>)
    ensures
        v@.len() == LESSON_COUNT,
        forall|i: int| 0 <= i < LESSON_COUNT ==> v@[i].title@ == lesson_title(i) && v@[i].description@ == lesson_description(i) && v@[i].text@ == lesson_text(i),
{
    let mut v: Vec<Lesson> = Vec::new();
    let mut i: usize = 0;
    while i < LESSON_COUNT
        invariant
            i <= LESSON_COUNT,
            v@.len() == i,
            forall|j: int| 0 <= j < i ==> v@[j].title@ == lesson_title(j) && v@[j].description@ == lesson_description(j) && v@[j].text@ == lesson_text(j),
        decreases LESSON_COUNT - i,
    {
        let l = lesson(i);
        v.push(l);
        i += 1;
    }
    v
}

/// The line under a lesson's title in the picker: `<n> characters`, `n`
/// being the length of its text in characters.
pub fn lesson_subtitle(i: usize) -> (s: String)
    requires
        i < LESSON_COUNT,
    ensures
        s@ == crate::textutil::dec_digits(lesson_text(i as int).len()) + " characters"@,
{
    let l = lesson(i);
    let n = l.text.unicode_len();
    let mut s = String::new();
    crate::textutil::push_decimal(&mut s, n as u64);
    s.append(" characters");
    s
}

} // verus!
