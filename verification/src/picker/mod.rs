//! The menus: what they are fed and what their answers mean.

use crate::flow::Tool;
use crate::text::{from_utf8_lossy, lines_of, lossy_text, split_lines, texts};
use vstd::prelude::*;
use vstd::string::*;

pub mod multi_select;
pub mod single_select;

verus! {

/// What came of a menu with one choice. Leaving it is no error.
#[derive(Debug, PartialEq, Eq)]
pub enum PickerOutcome {
    /// The row that the user chose.
    Selected(String),
    /// The user left the menu.
    Cancelled,
}

/// What came of asking for a name.
#[derive(Debug, PartialEq, Eq)]
pub enum NameOutcome {
    /// The name that the user typed.
    Typed(String),
    /// The user confirmed without typing anything.
    Unnamed,
    /// The user left the prompt.
    Cancelled,
}

/// What a menu program is called.
pub open spec fn program_of(tool: Tool) -> Seq<char> {
    match tool {
        Tool::Fuzzel => "fuzzel"@,
        Tool::Rofi => "rofi"@,
    }
}

/// What a menu program is called.
pub fn program(tool: Tool) -> (r: &'static str)
    ensures
        r@ == program_of(tool),
{
    match tool {
        Tool::Fuzzel => "fuzzel",
        Tool::Rofi => "rofi",
    }
}

/// A line that a menu program wrote to stderr, with the program's name before it.
pub open spec fn forwarded(tool: Tool) -> spec_fn(Seq<char>) -> Seq<char> {
    |line: Seq<char>| program_of(tool) + ": "@ + line
}

/// The lines that a menu program wrote to stderr, each with the program's name
/// before it.
pub fn forwarded_lines(tool: Tool, stderr: &[u8]) -> (r: Vec<String>)
    ensures
        texts(r@) == split_lines(lossy_text(stderr@)).map_values(forwarded(tool)),
{
    let text = from_utf8_lossy(stderr);
    let lines = lines_of(text.as_str());
    let mut out: Vec<String> = Vec::new();
    let mut i: usize = 0;
    while i < lines.len()
        invariant
            i <= lines@.len(),
            out@.len() == i,
            forall|j: int|
                0 <= j < i ==> (#[trigger] out@[j])@ == program_of(tool) + ": "@ + lines@[j]@,
        decreases lines@.len() - i,
    {
        let mut line = program(tool).to_owned();
        line.append(": ");
        line.append(lines[i].as_str());
        out.push(line);
        i = i + 1;
    }
    proof {
        let all = split_lines(lossy_text(stderr@));
        assert(texts(lines@) == all);
        assert forall|j: int| 0 <= j < all.len() implies texts(out@)[j] == all.map_values(
            forwarded(tool),
        )[j] by {
            assert(all[j] == lines@[j]@);
        }
        assert(texts(out@) =~= all.map_values(forwarded(tool)));
    }
    out
}

/// A line that a menu program wrote is shown as it is, behind the program's name.
pub proof fn law_lines_are_forwarded(line: Seq<char>)
    ensures
        forwarded(Tool::Fuzzel)(line) == "fuzzel: "@ + line,
        forwarded(Tool::Rofi)(line) == "rofi: "@ + line,
{
    reveal_strlit("fuzzel");
    reveal_strlit("rofi");
    reveal_strlit(": ");
    reveal_strlit("fuzzel: ");
    reveal_strlit("rofi: ");
    assert("fuzzel"@ + ": "@ =~= "fuzzel: "@);
    assert("rofi"@ + ": "@ =~= "rofi: "@);
}

} // verus!
