//! Replacing the model list inside the text of an editor's settings file
//! without touching anything else in it: comments, order and layout stay.

use crate::codec::{pretty_text, JsonError};
use crate::indent::{detect_indentation, indentation_of};
use crate::models::{models_json, CopilotConfigView, ModelsMap};
use crate::json::{
    find_member, first_member, lemma_view, members_view, replace_member_value, Json, JsonValue,
    Member,
};
use crate::text::{
    append_chars, char_is_whitespace, chars_of, has_prefix_at, is_whitespace, string_of,
};
use vstd::prelude::*;

verus! {

/// What the scanner is inside of.
#[derive(Debug, Clone, Copy, PartialEq, Eq)]
pub enum ScanMode {
    /// Plain settings text.
    Code,
    /// A `//` comment, up to the end of the line.
    LineComment,
    /// A `/* */` comment.
    BlockComment,
    /// A string opened by `delim`; `escaped` says that the character before
    /// was a backslash that escapes this one.
    InString { delim: char, escaped: bool },
}

/// The name of the setting that holds the model list.
pub open spec fn models_key() -> Seq<char> {
    "github.copilot.chat.customOAIModels"@
}

/// Whether `c` opens a string.
pub open spec fn is_quote(c: char) -> bool {
    c == '"' || c == '\''
}

/// One step of the scanner at position `i`: the mode after it and the
/// position it moves to.
pub open spec fn lex_step(text: Seq<char>, mode: ScanMode, i: int) -> (ScanMode, int) {
    match mode {
        ScanMode::LineComment => if text[i] == '\n' {
            (ScanMode::Code, i + 1)
        } else {
            (ScanMode::LineComment, i + 1)
        },
        ScanMode::BlockComment => if text[i] == '*' && i + 1 < text.len() && text[i + 1] == '/' {
            (ScanMode::Code, i + 2)
        } else {
            (ScanMode::BlockComment, i + 1)
        },
        ScanMode::InString { delim, escaped } => if escaped {
            (ScanMode::InString { delim, escaped: false }, i + 1)
        } else if text[i] == '\\' {
            (ScanMode::InString { delim, escaped: true }, i + 1)
        } else if text[i] == delim {
            (ScanMode::Code, i + 1)
        } else {
            (ScanMode::InString { delim, escaped: false }, i + 1)
        },
        ScanMode::Code => if text[i] == '/' && i + 1 < text.len() && text[i + 1] == '/' {
            (ScanMode::LineComment, i + 2)
        } else if text[i] == '/' && i + 1 < text.len() && text[i + 1] == '*' {
            (ScanMode::BlockComment, i + 2)
        } else if is_quote(text[i]) {
            (ScanMode::InString { delim: text[i], escaped: false }, i + 1)
        } else {
            (ScanMode::Code, i + 1)
        },
    }
}

/// Whether `c` is skipped between a key and its colon (`lines`: spaces,
/// tabs and line ends) or between the colon and the value (spaces and tabs
/// only).
pub open spec fn is_gap(c: char, lines: bool) -> bool {
    c == ' ' || c == '\t' || (lines && (c == '\n' || c == '\r'))
}

/// The first position at or behind `i` that holds no gap character.
pub open spec fn skip_gap(text: Seq<char>, i: int, lines: bool) -> int
    decreases text.len() - i,
{
    if 0 <= i < text.len() && is_gap(text[i], lines) {
        skip_gap(text, i + 1, lines)
    } else {
        i
    }
}

/// Whether the quote at `i` opens the key of the model list: the name
/// follows, then the same quote, then, after spaces and line ends, a colon.
pub open spec fn is_key_at(text: Seq<char>, i: int) -> bool {
    let n = models_key().len();
    &&& 0 <= i < text.len()
    &&& is_quote(text[i])
    &&& i + 1 + n < text.len()
    &&& text.subrange(i + 1, i + 1 + n) == models_key()
    &&& text[i + 1 + n] == text[i]
    &&& {
        let k = skip_gap(text, i + 2 + n, true);
        k < text.len() && text[k] == ':'
    }
}

/// The position of the first key of the model list that the scanner meets
/// outside comments and strings, scanning on from `i` in `mode`.
pub open spec fn find_key(text: Seq<char>, mode: ScanMode, i: int) -> Option<int>
    decreases text.len() - i,
{
    if i < 0 || i >= text.len() {
        None
    } else if mode is Code && is_key_at(text, i) {
        Some(i)
    } else {
        find_key(text, lex_step(text, mode, i).0, lex_step(text, mode, i).1)
    }
}

/// The position behind the brace that closes the object, scanning on from
/// `i` in `mode` with `depth` braces open. Braces in comments and strings
/// do not count.
pub open spec fn find_close(text: Seq<char>, mode: ScanMode, i: int, depth: int) -> Option<int>
    decreases text.len() - i,
{
    if i < 0 || i >= text.len() {
        None
    } else if mode is Code && text[i] == '{' {
        find_close(text, mode, i + 1, depth + 1)
    } else if mode is Code && text[i] == '}' {
        if depth == 1 {
            Some(i + 1)
        } else {
            find_close(text, mode, i + 1, depth - 1)
        }
    } else {
        find_close(text, lex_step(text, mode, i).0, lex_step(text, mode, i).1, depth)
    }
}

/// Where the line that holds position `i` begins.
pub open spec fn line_start(text: Seq<char>, i: int) -> int
    decreases i,
{
    if i <= 0 {
        0
    } else if text[i - 1] == '\n' {
        i
    } else {
        line_start(text, i - 1)
    }
}

/// The white space that `text` begins with.
pub open spec fn leading_whitespace(text: Seq<char>) -> Seq<char>
    decreases text.len(),
{
    if text.len() > 0 && is_whitespace(text[0]) {
        seq![text[0]] + leading_whitespace(text.drop_first())
    } else {
        Seq::empty()
    }
}

/// The indentation of the property whose key opens at `key`: the white
/// space that its line begins with, as far as it stands before the key.
pub open spec fn property_indent(text: Seq<char>, key: int) -> Seq<char> {
    leading_whitespace(text.subrange(line_start(text, key), key))
}

/// The first `n` characters of `source`, with `indent` put behind every
/// line feed that is not the last character of `source`.
pub open spec fn indented_prefix(source: Seq<char>, indent: Seq<char>, n: nat) -> Seq<char>
    decreases n,
{
    if n == 0 {
        Seq::empty()
    } else {
        let before = indented_prefix(source, indent, (n - 1) as nat);
        if source[n - 1] == '\n' && n < source.len() {
            before.push('\n') + indent
        } else {
            before.push(source[n - 1])
        }
    }
}

/// `source` with every line but the first indented by `indent`.
pub open spec fn indented(source: Seq<char>, indent: Seq<char>) -> Seq<char> {
    indented_prefix(source, indent, source.len())
}

/// The settings text with the value of the model list replaced by
/// `models`, indented like the property it belongs to. `None` where the
/// text holds no such key outside comments and strings, where the first
/// such key is not followed, on its line, by an object, or where that
/// object is never closed.
pub open spec fn spliced_settings(old: Seq<char>, models: Seq<char>) -> Option<Seq<char>> {
    match find_key(old, ScanMode::Code, 0) {
        None => None,
        Some(key) => {
            let colon = skip_gap(old, key + 2 + models_key().len(), true);
            let open = skip_gap(old, colon + 1, false);
            if open >= old.len() || old[open] != '{' {
                None
            } else {
                match find_close(old, ScanMode::Code, open, 0) {
                    None => None,
                    Some(end) => Some(
                        old.subrange(0, open) + indented(models, property_indent(old, key))
                            + old.subrange(end, old.len() as int),
                    ),
                }
            }
        },
    }
}

/// One step of the scanner.
pub fn lex(text: &[char], mode: ScanMode, i: usize) -> (next: (ScanMode, usize))
    requires
        i < text@.len(),
    ensures
        next.0 == lex_step(text@, mode, i as int).0,
        next.1 == lex_step(text@, mode, i as int).1,
        i < next.1 <= text@.len(),
{
    let n = text.len();
    let c = text[i];
    match mode {
        ScanMode::LineComment => if c == '\n' {
            (ScanMode::Code, i + 1)
        } else {
            (ScanMode::LineComment, i + 1)
        },
        ScanMode::BlockComment => if c == '*' && i + 1 < n && text[i + 1] == '/' {
            (ScanMode::Code, i + 2)
        } else {
            (ScanMode::BlockComment, i + 1)
        },
        ScanMode::InString { delim, escaped } => if escaped {
            (ScanMode::InString { delim, escaped: false }, i + 1)
        } else if c == '\\' {
            (ScanMode::InString { delim, escaped: true }, i + 1)
        } else if c == delim {
            (ScanMode::Code, i + 1)
        } else {
            (ScanMode::InString { delim, escaped: false }, i + 1)
        },
        ScanMode::Code => if c == '/' && i + 1 < n && text[i + 1] == '/' {
            (ScanMode::LineComment, i + 2)
        } else if c == '/' && i + 1 < n && text[i + 1] == '*' {
            (ScanMode::BlockComment, i + 2)
        } else if c == '"' || c == '\'' {
            (ScanMode::InString { delim: c, escaped: false }, i + 1)
        } else {
            (ScanMode::Code, i + 1)
        },
    }
}

/// Skips the gap characters from `i` on.
pub fn skip_gap_from(text: &[char], i: usize, lines: bool) -> (k: usize)
    requires
        i <= text@.len(),
    ensures
        k == skip_gap(text@, i as int, lines),
        i <= k <= text@.len(),
{
    let n = text.len();
    let mut k: usize = i;
    while k < n && (text[k] == ' ' || text[k] == '\t' || (lines && (text[k] == '\n' || text[k]
        == '\r')))
        invariant
            n == text@.len(),
            i <= k <= n,
            skip_gap(text@, k as int, lines) == skip_gap(text@, i as int, lines),
        decreases n - k,
    {
        k = k + 1;
    }
    k
}

/// Whether the quote at `i` opens the key of the model list, whose
/// characters are `key`.
fn key_at(text: &[char], key: &[char], i: usize) -> (r: bool)
    requires
        i < text@.len(),
        key@ == models_key(),
    ensures
        r == is_key_at(text@, i as int),
{
    let n = text.len();
    let m = key.len();
    let c = text[i];
    if !(c == '"' || c == '\'') {
        return false;
    }
    if m >= n - i - 1 {
        return false;
    }
    if !has_prefix_at(text, i + 1, key) {
        return false;
    }
    assert(text@.skip(i + 1).subrange(0, m as int) =~= text@.subrange(i + 1, i + 1 + m));
    if text[i + 1 + m] != c {
        return false;
    }
    let k = skip_gap_from(text, i + 2 + m, true);
    k < n && text[k] == ':'
}

/// Finds the first key of the model list outside comments and strings.
pub fn find_models_key(text: &[char]) -> (found: Option<usize>)
    ensures
        match found {
            Some(i) => find_key(text@, ScanMode::Code, 0) == Some(i as int) && is_key_at(
                text@,
                i as int,
            ),
            None => find_key(text@, ScanMode::Code, 0) is None,
        },
{
    let key_chars = chars_of("github.copilot.chat.customOAIModels");
    let key = key_chars.as_slice();
    let n = text.len();
    let mut i: usize = 0;
    let mut mode = ScanMode::Code;
    while i < n
        invariant
            n == text@.len(),
            key@ == models_key(),
            i <= n,
            find_key(text@, mode, i as int) == find_key(text@, ScanMode::Code, 0),
        decreases n - i,
    {
        if matches!(mode, ScanMode::Code) && key_at(text, key, i) {
            return Some(i);
        }
        let (next_mode, next) = lex(text, mode, i);
        mode = next_mode;
        i = next;
    }
    None
}

/// Finds the position behind the brace that closes the object opened at
/// `open`.
pub fn find_object_end(text: &[char], open: usize) -> (found: Option<usize>)
    requires
        open < text@.len(),
        text@[open as int] == '{',
    ensures
        match found {
            Some(end) => find_close(text@, ScanMode::Code, open as int, 0) == Some(end as int)
                && open < end <= text@.len(),
            None => find_close(text@, ScanMode::Code, open as int, 0) is None,
        },
{
    let n = text.len();
    let mut i: usize = open + 1;
    let mut depth: usize = 1;
    let mut mode = ScanMode::Code;
    while i < n
        invariant
            n == text@.len(),
            open < i <= n,
            1 <= depth <= i,
            find_close(text@, mode, i as int, depth as int) == find_close(
                text@,
                ScanMode::Code,
                open as int,
                0,
            ),
        decreases n - i,
    {
        if matches!(mode, ScanMode::Code) && text[i] == '{' {
            depth = depth + 1;
            i = i + 1;
        } else if matches!(mode, ScanMode::Code) && text[i] == '}' {
            if depth == 1 {
                return Some(i + 1);
            }
            depth = depth - 1;
            i = i + 1;
        } else {
            let (next_mode, next) = lex(text, mode, i);
            mode = next_mode;
            i = next;
        }
    }
    None
}

/// The bounds of the white space that opens the line of position `key`, as
/// far as it stands before `key`.
pub fn indent_bounds(text: &[char], key: usize) -> (bounds: (usize, usize))
    requires
        key <= text@.len(),
    ensures
        bounds.0 <= bounds.1 <= key,
        text@.subrange(bounds.0 as int, bounds.1 as int) == property_indent(text@, key as int),
{
    let mut start: usize = key;
    while start > 0 && text[start - 1] != '\n'
        invariant
            start <= key <= text@.len(),
            line_start(text@, start as int) == line_start(text@, key as int),
        decreases start,
    {
        start = start - 1;
    }
    let ghost line = text@.subrange(start as int, key as int);
    let mut end: usize = start;
    while end < key && char_is_whitespace(text[end])
        invariant
            start <= end <= key <= text@.len(),
            line == text@.subrange(start as int, key as int),
            leading_whitespace(line) == text@.subrange(start as int, end as int)
                + leading_whitespace(text@.subrange(end as int, key as int)),
        decreases key - end,
    {
        let ghost rest = text@.subrange(end as int, key as int);
        assert(rest.drop_first() =~= text@.subrange(end + 1, key as int));
        end = end + 1;
    }
    (start, end)
}

/// Appends `source` to `out`, every line but the first indented by
/// `indent`.
pub fn append_indented(out: &mut Vec<char>, source: &[char], indent: &[char])
    ensures
        final(out)@ == old(out)@ + indented(source@, indent@),
{
    let n = source.len();
    let mut i: usize = 0;
    while i < n
        invariant
            n == source@.len(),
            i <= n,
            out@ == old(out)@ + indented_prefix(source@, indent@, i as nat),
        decreases n - i,
    {
        let c = source[i];
        out.push(c);
        if c == '\n' && i + 1 < n {
            append_chars(out, indent, 0, indent.len());
        }
        i = i + 1;
    }
}

/// Replaces the value of the model list in the text of a settings file by
/// `models`, and leaves every other character where it is.
pub fn splice_models(old: &[char], models: &[char]) -> (new: Option<Vec<char>>)
    ensures
        match new {
            Some(text) => spliced_settings(old@, models@) == Some(text@),
            None => spliced_settings(old@, models@) is None,
        },
{
    let n = old.len();
    let key_chars = chars_of("github.copilot.chat.customOAIModels");
    let key = match find_models_key(old) {
        Some(key) => key,
        None => {
            return None;
        },
    };
    let colon = skip_gap_from(old, key + 2 + key_chars.len(), true);
    let open = skip_gap_from(old, colon + 1, false);
    if open >= n || old[open] != '{' {
        return None;
    }
    let end = match find_object_end(old, open) {
        Some(end) => end,
        None => {
            return None;
        },
    };
    let (from, to) = indent_bounds(old, key);
    let mut new: Vec<char> = Vec::new();
    append_chars(&mut new, old, 0, open);
    append_indented(&mut new, models, vstd::slice::slice_subrange(old, from, to));
    append_chars(&mut new, old, end, n);
    Some(new)
}

/// What updating the settings text in place gives: the spliced text, where
/// there is one and `read` says that it still reads as JSON5.
pub open spec fn updated_settings(old: Seq<char>, models: Seq<char>, read: bool) -> Option<
    Seq<char>,
> {
    match spliced_settings(old, models) {
        Some(text) => if read {
            Some(text)
        } else {
            None
        },
        None => None,
    }
}

/// Keeps a spliced text where it was read back as JSON5, and drops it
/// where it was not.
pub fn keep_if_read(spliced: Option<String>, read: bool) -> (kept: Option<String>)
    ensures
        kept == if read {
            spliced
        } else {
            None
        },
{
    if read {
        spliced
    } else {
        None
    }
}

/// Replaces the value of the model list in the text of a settings file by
/// the text `models_object_src`, keeping comments, order and layout. Gives
/// nothing where the text holds no model list that can be replaced, or
/// where the JSON5 parser does not read the result. So what is given is
/// always the spliced text, and a text that cannot be spliced gives
/// nothing; whether a spliced text is kept is the parser's to say.
pub fn try_update_custom_oai_models_in_text(old_content: &str, models_object_src: &str) -> (updated:
    Option<String>)
    ensures
        updated matches Some(text) ==> spliced_settings(old_content@, models_object_src@) == Some(
            text@,
        ),
        spliced_settings(old_content@, models_object_src@) is None ==> updated is None,
{
    let spliced = splice_settings_text(old_content, models_object_src);
    let read = match &spliced {
        Some(text) => Json::from_json5(text.as_str()).is_ok(),
        None => false,
    };
    keep_if_read(spliced, read)
}

/// The settings text with the model list replaced, as a string.
pub fn splice_settings_text(old_content: &str, models_object_src: &str) -> (spliced: Option<
    String,
>)
    ensures
        match spliced {
            Some(text) => spliced_settings(old_content@, models_object_src@) == Some(text@),
            None => spliced_settings(old_content@, models_object_src@) is None,
        },
{
    let old = chars_of(old_content);
    let models = chars_of(models_object_src);
    match splice_models(old.as_slice(), models.as_slice()) {
        Some(new) => Some(string_of(new.as_slice())),
        None => None,
    }
}

/// Settings with the model list set to `models`: an object gets the member
/// replaced where it has one, and added at its end where it has none;
/// `null` becomes an object with this one member.
pub open spec fn with_models(settings: JsonValue, models: JsonValue) -> JsonValue {
    match settings {
        JsonValue::Object(members) => match first_member(members, models_key()) {
            Some(i) => JsonValue::Object(members.update(i, (members[i].0, models))),
            None => JsonValue::Object(members.push((models_key(), models))),
        },
        JsonValue::Null => JsonValue::Object(seq![(models_key(), models)]),
        _ => settings,
    }
}

/// Whether settings can take a model list: they are an object or `null`.
pub open spec fn takes_models(settings: JsonValue) -> bool {
    settings is Object || settings is Null
}

/// Whether settings can take a model list.
pub fn can_take_models(settings: &Json) -> (r: bool)
    ensures
        r == takes_models(settings@),
{
    proof {
        lemma_view(*settings);
    }
    match settings {
        Json::Object(_) => true,
        Json::Null => true,
        _ => false,
    }
}

/// Sets the model list of parsed settings.
pub fn set_models(settings: Json, models: Json) -> (out: Json)
    requires
        takes_models(settings@),
    ensures
        out@ == with_models(settings@, models@),
{
    proof {
        lemma_view(settings);
    }
    let mut members = match settings {
        Json::Object(members) => members,
        _ => Vec::new(),
    };
    let ghost before = members_view(members@);
    match find_member(&members, "github.copilot.chat.customOAIModels") {
        Some(i) => {
            let _ = replace_member_value(&mut members, i, models);
        },
        None => {
            members.push(
                Member { key: "github.copilot.chat.customOAIModels".to_owned(), value: models },
            );
            assert(members_view(members@) =~= before.push((models_key(), models@)));
        },
    }
    let out = Json::Object(members);
    proof {
        lemma_view(out);
        if settings@ is Null {
            crate::json::lemma_no_member(before, models_key());
            assert(before.push((models_key(), models@)) =~= seq![(models_key(), models@)]);
        }
    }
    out
}

/// How the new text of a settings file came about.
#[derive(Debug, Clone, Copy, PartialEq, Eq)]
pub enum SettingsOrigin {
    /// The model list was replaced inside the old text.
    InPlace,
    /// The old text was read as JSON5 and written anew.
    Rewritten,
    /// The old text could not be read; the new text holds the model list
    /// only.
    Replaced,
    /// There was no old text; the new text holds the model list only.
    Fresh,
}

/// Why there is no new text for a settings file.
#[derive(Debug, Clone, Copy, PartialEq, Eq)]
pub enum SettingsError {
    /// The settings could not be written as JSON text.
    NotWritten,
    /// The old text is JSON5, but neither an object nor `null`, so it has
    /// no place for a model list.
    NotAnObject,
}

/// The new text of a settings file and how it came about. Where the old
/// text could not be read, `parse_error` holds what the parser said.
#[derive(Debug, PartialEq, Eq)]
pub struct NewSettings {
    pub text: String,
    pub origin: SettingsOrigin,
    pub parse_error: Option<String>,
}

/// The model of [`NewSettings`].
pub struct NewSettingsView {
    pub text: Seq<char>,
    pub origin: SettingsOrigin,
    pub parse_error: Option<Seq<char>>,
}

impl NewSettings {
    /// The model of these settings.
    pub open spec fn view(&self) -> NewSettingsView {
        NewSettingsView {
            text: self.text@,
            origin: self.origin,
            parse_error: match self.parse_error {
                Some(message) => Some(message@),
                None => None,
            },
        }
    }
}

/// The model of a result that holds new settings.
pub open spec fn settings_result(r: Result<NewSettings, SettingsError>) -> Result<
    NewSettingsView,
    SettingsError,
> {
    match r {
        Ok(new) => Ok(new@),
        Err(e) => Err(e),
    }
}

/// The model of what the JSON5 parser made of a text: the document, or
/// its message.
pub open spec fn parsed_view(parsed: Result<Json, String>) -> Result<JsonValue, Seq<char>> {
    match parsed {
        Ok(doc) => Ok(doc@),
        Err(message) => Err(message@),
    }
}

/// The text of the model list, written with the indentation `indent`.
pub open spec fn models_text(
    models: Seq<(Seq<char>, CopilotConfigView)>,
    indent: Seq<char>,
) -> Option<Seq<char>> {
    pretty_text(models_json(models), indent)
}

/// Settings rebuilt from a parsed document: the model list set, and all
/// of it written with the indentation `indent`.
pub open spec fn rebuilt_settings(
    settings: JsonValue,
    models: Seq<(Seq<char>, CopilotConfigView)>,
    indent: Seq<char>,
    origin: SettingsOrigin,
    parse_error: Option<Seq<char>>,
) -> Result<NewSettingsView, SettingsError> {
    if !takes_models(settings) {
        Err(SettingsError::NotAnObject)
    } else {
        match pretty_text(with_models(settings, models_json(models)), indent) {
            Some(text) => Ok(NewSettingsView { text, origin, parse_error }),
            None => Err(SettingsError::NotWritten),
        }
    }
}

/// Settings rebuilt from what the parser made of the old text: where it
/// read a document, that document with the model list set; where it did
/// not, settings that hold the model list only, and its message.
pub open spec fn settings_from_parsed(
    parsed: Result<JsonValue, Seq<char>>,
    models: Seq<(Seq<char>, CopilotConfigView)>,
    indent: Seq<char>,
) -> Result<NewSettingsView, SettingsError> {
    match parsed {
        Ok(settings) => rebuilt_settings(settings, models, indent, SettingsOrigin::Rewritten, None),
        Err(message) => rebuilt_settings(
            JsonValue::Object(Seq::empty()),
            models,
            indent,
            SettingsOrigin::Replaced,
            Some(message),
        ),
    }
}

/// The new text of a settings file whose old text is `old`, given what the
/// JSON5 parser said: `spliced_is_read` tells whether it read the text
/// with the model list replaced in place, `old_parsed` is what it made of
/// the old text. The indentation is the one the old text uses. An empty
/// old text gives settings that hold the model list only. Where the model
/// list can be replaced inside the old text and the result was read, that
/// result stands; in every other case the settings are rebuilt from
/// `old_parsed`.
pub open spec fn new_settings(
    old: Seq<char>,
    models: Seq<(Seq<char>, CopilotConfigView)>,
    spliced_is_read: bool,
    old_parsed: Result<JsonValue, Seq<char>>,
) -> Result<NewSettingsView, SettingsError> {
    let indent = indentation_of(old);
    match models_text(models, indent) {
        None => Err(SettingsError::NotWritten),
        Some(source) => if old.len() == 0 {
            rebuilt_settings(
                JsonValue::Object(Seq::empty()),
                models,
                indent,
                SettingsOrigin::Fresh,
                None,
            )
        } else {
            match updated_settings(old, source, spliced_is_read) {
                Some(text) => Ok(
                    NewSettingsView { text, origin: SettingsOrigin::InPlace, parse_error: None },
                ),
                None => settings_from_parsed(old_parsed, models, indent),
            }
        },
    }
}

/// Writes the model list as JSON text with the indentation `indent_unit`.
pub fn render_models_object(config: &ModelsMap, indent_unit: &str) -> (r: Result<String, JsonError>)
    ensures
        match r {
            Ok(text) => models_text(config@, indent_unit@) == Some(text@),
            Err(_) => models_text(config@, indent_unit@) is None,
        },
{
    config.to_json().to_pretty_text(indent_unit)
}

/// Sets the model list in parsed settings and writes them anew.
pub fn rebuild_settings(
    settings: Json,
    config: &ModelsMap,
    indent_unit: &str,
    origin: SettingsOrigin,
    parse_error: Option<String>,
) -> (r: Result<NewSettings, SettingsError>)
    ensures
        settings_result(r) == rebuilt_settings(
            settings@,
            config@,
            indent_unit@,
            origin,
            match parse_error {
                Some(message) => Some(message@),
                None => None,
            },
        ),
{
    if !can_take_models(&settings) {
        return Err(SettingsError::NotAnObject);
    }
    let settings = set_models(settings, config.to_json());
    match settings.to_pretty_text(indent_unit) {
        Ok(text) => Ok(NewSettings { text, origin, parse_error }),
        Err(_) => Err(SettingsError::NotWritten),
    }
}

/// Rebuilds the settings from what the parser made of the old text.
pub fn rebuild_from_parsed(parsed: Result<Json, String>, config: &ModelsMap, indent_unit: &str) -> (r:
    Result<NewSettings, SettingsError>)
    ensures
        settings_result(r) == settings_from_parsed(parsed_view(parsed), config@, indent_unit@),
{
    match parsed {
        Ok(settings) => rebuild_settings(
            settings,
            config,
            indent_unit,
            SettingsOrigin::Rewritten,
            None,
        ),
        Err(message) => rebuild_settings(
            Json::empty_object(),
            config,
            indent_unit,
            SettingsOrigin::Replaced,
            Some(message),
        ),
    }
}

/// Makes the new text of a settings file from its old text, the model
/// list, and what the JSON5 parser said of the spliced text and of the old
/// text.
pub fn settings_from(
    old_content: &str,
    config: &ModelsMap,
    spliced_is_read: bool,
    old_parsed: Result<Json, String>,
) -> (r: Result<NewSettings, SettingsError>)
    ensures
        settings_result(r) == new_settings(
            old_content@,
            config@,
            spliced_is_read,
            parsed_view(old_parsed),
        ),
{
    let indent_unit = detect_indentation(old_content);
    let source = match render_models_object(config, indent_unit.as_str()) {
        Ok(source) => source,
        Err(_) => {
            return Err(SettingsError::NotWritten);
        },
    };
    if old_content.is_empty() {
        return rebuild_settings(
            Json::empty_object(),
            config,
            indent_unit.as_str(),
            SettingsOrigin::Fresh,
            None,
        );
    }
    let spliced = splice_settings_text(old_content, source.as_str());
    match keep_if_read(spliced, spliced_is_read) {
        Some(text) => Ok(NewSettings { text, origin: SettingsOrigin::InPlace, parse_error: None }),
        None => rebuild_from_parsed(old_parsed, config, indent_unit.as_str()),
    }
}

/// Makes the new text of a settings file from its old text and the model
/// list. The JSON5 parser is asked whether it reads the spliced text, and,
/// where that gives nothing, what it makes of the old text; the result is
/// what `new_settings` gives for its answers.
pub fn render_settings(old_content: &str, config: &ModelsMap) -> (r: Result<
    NewSettings,
    SettingsError,
>)
    ensures
        exists|read: bool, parsed: Result<JsonValue, Seq<char>>|
            settings_result(r) == #[trigger] new_settings(old_content@, config@, read, parsed),
{
    let indent_unit = detect_indentation(old_content);
    let source = match render_models_object(config, indent_unit.as_str()) {
        Ok(source) => source,
        Err(_) => {
            assert(new_settings(old_content@, config@, false, Err(Seq::empty())) == Err::<
                NewSettingsView,
                SettingsError,
            >(SettingsError::NotWritten));
            return Err(SettingsError::NotWritten);
        },
    };
    if old_content.is_empty() {
        let r = rebuild_settings(
            Json::empty_object(),
            config,
            indent_unit.as_str(),
            SettingsOrigin::Fresh,
            None,
        );
        assert(settings_result(r) == new_settings(
            old_content@,
            config@,
            false,
            Err(Seq::empty()),
        ));
        return r;
    }
    match try_update_custom_oai_models_in_text(old_content, source.as_str()) {
        Some(text) => {
            let r = Ok(NewSettings { text, origin: SettingsOrigin::InPlace, parse_error: None });
            assert(settings_result(r) == new_settings(
                old_content@,
                config@,
                true,
                Err(Seq::empty()),
            ));
            r
        },
        None => {
            let parsed = Json::from_json5(old_content);
            let ghost answer = parsed_view(parsed);
            let r = rebuild_from_parsed(parsed, config, indent_unit.as_str());
            assert(settings_result(r) == new_settings(old_content@, config@, false, answer));
            r
        },
    }
}

} // verus!
