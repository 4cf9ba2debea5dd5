//! Where an editor keeps its settings, and how the copy that is made
//! before they are changed is named.

use crate::text::{
    decimal, push_decimal, push_text, push_two_digits, same_text, string_of, two_digits,
};
use vstd::prelude::*;

verus! {

/// The editor whose settings are meant.
#[derive(Debug, Clone, Copy, PartialEq, Eq)]
pub enum VsCodeEditor {
    Code,
    CodeInsiders,
}

/// The directory from which a settings path starts.
#[derive(Debug, Clone, Copy, PartialEq, Eq)]
pub enum SettingsRoot {
    /// The user's home directory.
    Home,
    /// The directory for application data: what `APPDATA` names, or else
    /// `AppData/Roaming` in the home directory.
    AppData,
}

/// A settings file: the directory it is found from, and the path from
/// there.
#[derive(Debug, PartialEq, Eq)]
pub struct SettingsLocation {
    pub root: SettingsRoot,
    pub relative: String,
}

/// Where the directory for application data lies in the home directory
/// when `APPDATA` is not set.
pub fn app_data_fallback() -> (relative: String)
    ensures
        relative@ == "AppData/Roaming"@,
{
    "AppData/Roaming".to_owned()
}

/// The directory that holds an editor's settings, as the editor names it.
pub open spec fn editor_directory(editor: VsCodeEditor) -> Seq<char> {
    match editor {
        VsCodeEditor::Code => "Code"@,
        VsCodeEditor::CodeInsiders => "Code - Insiders"@,
    }
}

/// Where `editor` keeps its settings on the operating system `os`;
/// nothing for a system other than `macos`, `windows` and `linux`.
pub open spec fn settings_place(os: Seq<char>, editor: VsCodeEditor) -> Option<
    (SettingsRoot, Seq<char>),
> {
    if os == "macos"@ {
        Some(
            (
                SettingsRoot::Home,
                "Library/Application Support/"@ + editor_directory(editor)
                    + "/User/settings.json"@,
            ),
        )
    } else if os == "windows"@ {
        Some((SettingsRoot::AppData, editor_directory(editor) + "/User/settings.json"@))
    } else if os == "linux"@ {
        Some((SettingsRoot::Home, ".config/"@ + editor_directory(editor) + "/User/settings.json"@))
    } else {
        None
    }
}

/// Tells where `editor` keeps its settings on the operating system `os`.
pub fn settings_location(os: &str, editor: VsCodeEditor) -> (place: Option<SettingsLocation>)
    ensures
        match place {
            Some(location) => settings_place(os@, editor) == Some(
                (location.root, location.relative@),
            ),
            None => settings_place(os@, editor) is None,
        },
{
    let (root, lead) = if same_text(os, "macos") {
        (SettingsRoot::Home, "Library/Application Support/")
    } else if same_text(os, "windows") {
        (SettingsRoot::AppData, "")
    } else if same_text(os, "linux") {
        (SettingsRoot::Home, ".config/")
    } else {
        return None;
    };
    proof {
        reveal_strlit("");
    }
    let mut out: Vec<char> = Vec::new();
    push_text(&mut out, lead);
    match editor {
        VsCodeEditor::Code => push_text(&mut out, "Code"),
        VsCodeEditor::CodeInsiders => push_text(&mut out, "Code - Insiders"),
    }
    push_text(&mut out, "/User/settings.json");
    let relative = string_of(out.as_slice());
    Some(SettingsLocation { root, relative })
}

/// The two digits that stand for a year in a backup's name: the year's
/// last two digits, with a minus sign where the year is negative.
pub open spec fn year_tag(year: int) -> Seq<char> {
    if year >= 0 {
        two_digits((year % 100) as nat)
    } else {
        let rest = (-year) % 100;
        if rest == 0 {
            two_digits(0)
        } else {
            "-"@ + decimal(rest as nat)
        }
    }
}

/// The name of the backup of the settings file `stem` that is made on the
/// given day, the `index`-th of that day:
/// `stem.YYMMDD-index.backup.json`.
pub open spec fn backup_name(stem: Seq<char>, year: int, month: nat, day: nat, index: nat) -> Seq<
    char,
> {
    stem + "."@ + year_tag(year) + two_digits(month) + two_digits(day) + "-"@ + decimal(index)
        + ".backup.json"@
}

/// Names the backup of a settings file.
pub fn backup_file_name(stem: &str, year: i32, month: u32, day: u32, index: u32) -> (name: String)
    ensures
        name@ == backup_name(stem@, year as int, month as nat, day as nat, index as nat),
{
    let mut out: Vec<char> = Vec::new();
    push_text(&mut out, stem);
    push_text(&mut out, ".");
    if year >= 0 {
        push_two_digits(&mut out, (year % 100) as u32);
    } else {
        let rest: u32 = ((0 - (year as i64)) % 100) as u32;
        if rest == 0 {
            push_two_digits(&mut out, 0);
        } else {
            push_text(&mut out, "-");
            push_decimal(&mut out, rest);
        }
    }
    push_two_digits(&mut out, month);
    push_two_digits(&mut out, day);
    push_text(&mut out, "-");
    push_decimal(&mut out, index);
    push_text(&mut out, ".backup.json");
    let name = string_of(out.as_slice());
    name
}

} // verus!
