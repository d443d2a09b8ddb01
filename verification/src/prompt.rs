//! The words exchanged with the frame analyzer: the request that is made for
//! one frame, and what is kept of the answer before it is read as JSON.

use base64::engine::general_purpose::STANDARD;
use crate::types::{SafetyStatus, SignalColor};
use base64::Engine;
use vstd::prelude::*;

verus! {

/// What the frame analyzer is asked to do, up to the number of the frame.
pub const PROMPT_HEAD: &'static str = r#"Analyze this driving frame and output ONLY a JSON object matching this schema:
DRIVING_ANALYSIS_SCHEMA = {
    "lane_centering": {"following_lane_discipline": bool, "score": float},
    "following_distance": {"safe_distance": "safe" | "unsafe", "score": float},
    "signal_compliance": {
        "traffic_light": {"status": "red" | "yellow" | "green", "compliance": bool, "score": float},
        "stop_sign": {"present": bool, "compliance": bool | "N/A", "score": float}
    },
    "merging_lane_change": {"safe_merging": bool, "score": float},
    "pedestrian_yielding": {"pedestrian_present": bool, "score": float},
    "intersection_behavior": {"stop_line_observance": bool, "score": float},
    "road_sign_awareness": {
        "speed_limit_sign": {"visible": bool, "observing_limit": "yes" | "no" | "unknown", "score": float},
        "yield_sign": {"visible": bool, "score": float}
    },
    "shoulder_use": {"using_shoulder": bool, "score": float}
}

[Frame #"#;

/// What stands between the number of the frame and its image.
pub const PROMPT_JOINT: &'static str = " - Base64 Image]: ";

/// The text that the standard base64 alphabet, with padding, makes of `bytes`.
pub uninterp spec fn base64_text(bytes: Seq<u8>) -> Seq<char>;

/// `Engine::encode` of `base64::engine::general_purpose::STANDARD`: the bytes
/// in base64. The call panics where the text would be longer than a vector
/// can be, so such input is left out.
#[verifier::external_body]
fn encode_base64(bytes: &[u8]) -> (text: String)
    requires
        encodable(bytes@.len()),
    ensures
        text@ == base64_text(bytes@),
{
    STANDARD.encode(bytes)
}

/// One decimal digit as text.
pub open spec fn digit_text(digit: int) -> Seq<char> {
    if digit == 0 {
        "0"@
    } else if digit == 1 {
        "1"@
    } else if digit == 2 {
        "2"@
    } else if digit == 3 {
        "3"@
    } else if digit == 4 {
        "4"@
    } else if digit == 5 {
        "5"@
    } else if digit == 6 {
        "6"@
    } else if digit == 7 {
        "7"@
    } else if digit == 8 {
        "8"@
    } else {
        "9"@
    }
}

/// A number in decimal digits, without leading zeros.
pub open spec fn decimal_text(number: nat) -> Seq<char>
    decreases number,
{
    if number < 10 {
        digit_text(number as int)
    } else {
        decimal_text(number / 10) + digit_text((number % 10) as int)
    }
}

/// The request for the frame `frame_number` whose image in base64 is `image`.
pub open spec fn prompt_text(frame_number: u32, image: Seq<char>) -> Seq<char> {
    PROMPT_HEAD@ + decimal_text(frame_number as nat) + PROMPT_JOINT@ + image
}

/// One decimal digit as text.
fn digit(value: u64) -> (text: &'static str)
    requires
        value < 10,
    ensures
        text@ == digit_text(value as int),
{
    if value == 0 {
        "0"
    } else if value == 1 {
        "1"
    } else if value == 2 {
        "2"
    } else if value == 3 {
        "3"
    } else if value == 4 {
        "4"
    } else if value == 5 {
        "5"
    } else if value == 6 {
        "6"
    } else if value == 7 {
        "7"
    } else if value == 8 {
        "8"
    } else {
        "9"
    }
}

/// A number in decimal digits, without leading zeros.
pub fn decimal(number: u64) -> (text: String)
    ensures
        text@ == decimal_text(number as nat),
    decreases number,
{
    if number < 10 {
        String::from_str(digit(number))
    } else {
        decimal(number / 10).concat(digit(number % 10))
    }
}

/// The request for the frame `frame_number` whose image in base64 is `image`.
pub fn frame_prompt(frame_number: u32, image: &str) -> (prompt: String)
    ensures
        prompt@ == prompt_text(frame_number, image@),
{
    let number = decimal(frame_number as u64);
    String::from_str(PROMPT_HEAD).concat(number.as_str()).concat(PROMPT_JOINT).concat(image)
}

/// Whether an image of `length` bytes is small enough for its base64 text to
/// be held.
pub open spec fn encodable(length: nat) -> bool {
    length / 3 * 4 + 4 <= isize::MAX
}

/// The request for the frame `frame_number` with the image `frame_data`, the
/// image put in base64; nothing where the image is too large for that.
pub fn build_prompt(frame_data: &[u8], frame_number: u32) -> (prompt: Option<String>)
    ensures
        prompt.is_some() == encodable(frame_data@.len()),
        prompt matches Some(text) ==> text@ == prompt_text(
            frame_number,
            base64_text(frame_data@),
        ),
{
    if frame_data.len() / 3 > (isize::MAX as usize - 4) / 4 {
        return None;
    }
    let image = encode_base64(frame_data);
    Some(frame_prompt(frame_number, image.as_str()))
}

/// Whether `c` is white space: one of the twenty-five characters to which
/// Unicode gives the property White_Space. They are the tab, the line feed,
/// the vertical tab, the form feed and the carriage return, the space, the
/// next-line control, the no-break space, the Ogham space mark, the spaces
/// from the en quad to the hair space, the line and the paragraph separator,
/// the narrow no-break space, the medium mathematical space and the
/// ideographic space.
pub open spec fn white_space(c: char) -> bool {
    let code = c as u32;
    ||| 0x0009 <= code <= 0x000D
    ||| code == 0x0020
    ||| code == 0x0085
    ||| code == 0x00A0
    ||| code == 0x1680
    ||| 0x2000 <= code <= 0x200A
    ||| code == 0x2028
    ||| code == 0x2029
    ||| code == 0x202F
    ||| code == 0x205F
    ||| code == 0x3000
}

/// Whether `c` is white space.
pub fn is_white_space(c: char) -> (r: bool)
    ensures
        r == white_space(c),
{
    let code: u32 = c as u32;
    (0x0009 <= code && code <= 0x000D) || code == 0x0020 || code == 0x0085 || code == 0x00A0
        || code == 0x1680 || (0x2000 <= code && code <= 0x200A) || code == 0x2028 || code
        == 0x2029 || code == 0x202F || code == 0x205F || code == 0x3000
}

/// Whether `c` is one of the characters that may fence an answer: a backtick,
/// a line feed or a space.
pub open spec fn is_fence(c: char) -> bool {
    c == '`' || c == '\n' || c == ' '
}

/// The first place at or after `from` that is not marked; the length where
/// every place from there on is marked.
pub open spec fn first_unmarked(marks: Seq<bool>, from: int) -> int
    decreases marks.len() - from,
{
    if 0 <= from < marks.len() && marks[from] {
        first_unmarked(marks, from + 1)
    } else {
        from
    }
}

/// The place behind the last unmarked place before `until` and not before
/// `from`; `from` where every place between them is marked.
pub open spec fn end_of_unmarked(marks: Seq<bool>, from: int, until: int) -> int
    decreases until,
{
    if 0 <= from < until <= marks.len() && marks[until - 1] {
        end_of_unmarked(marks, from, until - 1)
    } else {
        until
    }
}

/// Where what is kept begins once the marked places at the front are cut off.
pub open spec fn kept_start(marks: Seq<bool>) -> int {
    first_unmarked(marks, 0)
}

/// Where what is kept ends once the marked places at both ends are cut off.
pub open spec fn kept_end(marks: Seq<bool>) -> int {
    end_of_unmarked(marks, kept_start(marks), marks.len() as int)
}

/// `text` without the marked places at its ends.
pub open spec fn stripped(text: Seq<char>, marks: Seq<bool>) -> Seq<char> {
    text.subrange(kept_start(marks), kept_end(marks))
}

/// For each character of `text`, whether it is white space.
pub open spec fn white_marks(text: Seq<char>) -> Seq<bool> {
    Seq::new(text.len(), |i: int| white_space(text[i]))
}

/// For each character of `text`, whether it may fence an answer.
pub open spec fn fence_marks(text: Seq<char>) -> Seq<bool> {
    Seq::new(text.len(), |i: int| is_fence(text[i]))
}

/// `text` without the white space at its ends.
pub open spec fn trimmed(text: Seq<char>) -> Seq<char> {
    stripped(text, white_marks(text))
}

/// What is kept of an answer: the text without the white space at its ends,
/// and then without the backticks, line feeds and spaces at the ends of that.
pub open spec fn cleaned(text: Seq<char>) -> Seq<char> {
    stripped(trimmed(text), fence_marks(trimmed(text)))
}

/// Where what is kept begins and ends once the marked places at both ends
/// are cut off.
pub fn kept_range(marks: &Vec<bool>) -> (range: (usize, usize))
    ensures
        range.0 == kept_start(marks@),
        range.1 == kept_end(marks@),
        range.0 <= range.1 <= marks@.len(),
{
    let mut start: usize = 0;
    while start < marks.len() && marks[start]
        invariant
            start <= marks.len(),
            first_unmarked(marks@, 0) == first_unmarked(marks@, start as int),
        decreases marks.len() - start,
    {
        start = start + 1;
    }
    let mut end: usize = marks.len();
    while end > start && marks[end - 1]
        invariant
            start <= end <= marks.len(),
            end_of_unmarked(marks@, start as int, marks@.len() as int) == end_of_unmarked(
                marks@,
                start as int,
                end as int,
            ),
        decreases end,
    {
        end = end - 1;
    }
    (start, end)
}

/// For each character of `text`, whether it is white space.
fn mark_white_space(text: &str) -> (marks: Vec<bool>)
    ensures
        marks@ == white_marks(text@),
{
    let count: usize = text.unicode_len();
    let mut marks: Vec<bool> = Vec::new();
    let mut i: usize = 0;
    while i < count
        invariant
            i <= count,
            count == text@.len(),
            marks@.len() == i,
            forall|k: int| 0 <= k < i ==> marks@[k] == white_space(text@[k]),
        decreases count - i,
    {
        marks.push(is_white_space(text.get_char(i)));
        i = i + 1;
    }
    assert(marks@ =~= white_marks(text@));
    marks
}

/// For each character of `text`, whether it may fence an answer.
fn mark_fences(text: &str) -> (marks: Vec<bool>)
    ensures
        marks@ == fence_marks(text@),
{
    let count: usize = text.unicode_len();
    let mut marks: Vec<bool> = Vec::new();
    let mut i: usize = 0;
    while i < count
        invariant
            i <= count,
            count == text@.len(),
            marks@.len() == i,
            forall|k: int| 0 <= k < i ==> marks@[k] == is_fence(text@[k]),
        decreases count - i,
    {
        let c: char = text.get_char(i);
        marks.push(c == '`' || c == '\n' || c == ' ');
        i = i + 1;
    }
    assert(marks@ =~= fence_marks(text@));
    marks
}

/// What is kept of an answer of the frame analyzer before it is read as JSON.
pub fn clean_content(content: &str) -> (kept: &str)
    ensures
        kept@ == cleaned(content@),
{
    let white = mark_white_space(content);
    let (start, end) = kept_range(&white);
    let inner = content.substring_char(start, end);
    let fences = mark_fences(inner);
    let (from, to) = kept_range(&fences);
    inner.substring_char(from, to)
}

/// The judgement of a following distance that an answer words as `label`:
/// safe for "safe", unsafe for "unsafe", unknown for anything else.
pub open spec fn safety_of(label: Seq<char>) -> SafetyStatus {
    if label == "safe"@ {
        SafetyStatus::Safe
    } else if label == "unsafe"@ {
        SafetyStatus::Unsafe
    } else {
        SafetyStatus::Unknown
    }
}

/// The colour of a traffic light that an answer words as `label`: red for
/// "red", yellow for "yellow", green for "green", unknown for anything else.
pub open spec fn color_of(label: Seq<char>) -> SignalColor {
    if label == "red"@ {
        SignalColor::Red
    } else if label == "yellow"@ {
        SignalColor::Yellow
    } else if label == "green"@ {
        SignalColor::Green
    } else {
        SignalColor::Unknown
    }
}

/// Whether a speed limit is observed, as an answer words it in `label`: it
/// is for "yes", it is not for "no", and nothing is known for anything else.
pub open spec fn observance_of(label: Seq<char>) -> Option<bool> {
    if label == "yes"@ {
        Some(true)
    } else if label == "no"@ {
        Some(false)
    } else {
        None
    }
}

/// Whether `label` is the word `word`.
fn says(label: &str, word: &str) -> (r: bool)
    ensures
        r == (label@ == word@),
{
    String::from_str(label) == String::from_str(word)
}

/// The judgement of a following distance that an answer words as `label`.
pub fn safety_status(label: &str) -> (status: SafetyStatus)
    ensures
        status == safety_of(label@),
{
    if says(label, "safe") {
        SafetyStatus::Safe
    } else if says(label, "unsafe") {
        SafetyStatus::Unsafe
    } else {
        SafetyStatus::Unknown
    }
}

/// The colour of a traffic light that an answer words as `label`.
pub fn signal_color(label: &str) -> (color: SignalColor)
    ensures
        color == color_of(label@),
{
    if says(label, "red") {
        SignalColor::Red
    } else if says(label, "yellow") {
        SignalColor::Yellow
    } else if says(label, "green") {
        SignalColor::Green
    } else {
        SignalColor::Unknown
    }
}

/// Whether a speed limit is observed, as an answer words it in `label`.
pub fn limit_observance(label: &str) -> (observed: Option<bool>)
    ensures
        observed == observance_of(label@),
{
    if says(label, "yes") {
        Some(true)
    } else if says(label, "no") {
        Some(false)
    } else {
        None
    }
}

} // verus!
