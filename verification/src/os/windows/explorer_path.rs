//! The folder that is open in Explorer.

use vstd::prelude::*;
use vstd::string::*;

use crate::os::detect::{trim, trimmed};
use crate::text::{chars_of, texts};

verus! {

/// The folder that is open in Explorer, by the first of the ways to ask for it
/// that gave one: the shell, the address bar, the title of the window.
pub fn get_active_explorer_path(
    shell: Option<String>,
    address_bar: Option<String>,
    title: Option<String>,
) -> (path: Option<String>)
    ensures
        path == if shell is Some {
            shell
        } else if address_bar is Some {
            address_bar
        } else {
            title
        },
{
    if shell.is_some() {
        return shell;
    }
    if address_bar.is_some() {
        return address_bar;
    }
    title
}

/// Whether a window of this class shows a folder.
pub fn is_explorer_window(class: &str) -> (explorer: bool)
    ensures
        explorer == (class@ == "CabinetWClass"@ || class@ == "ExploreWClass"@),
{
    let name = class.to_owned();
    name == "CabinetWClass".to_owned() || name == "ExploreWClass".to_owned()
}

/// Whether `s` holds `part` somewhere.
pub open spec fn holds(s: Seq<char>, part: Seq<char>) -> bool {
    exists|i: int|
        0 <= i <= s.len() - part.len() && #[trigger] s.subrange(i, i + part.len()) == part
}

fn contains(s: &str, part: &str) -> (found: bool)
    ensures
        found == holds(s@, part@),
{
    let chars = chars_of(s);
    let wanted = chars_of(part);
    let len: usize = chars.len();
    if len < wanted.len() {
        return false;
    }
    let last: usize = len - wanted.len();
    let mut i: usize = 0;
    loop
        invariant
            chars@ == s@,
            wanted@ == part@,
            len == chars@.len(),
            last == s@.len() - part@.len(),
            i <= last,
            forall|k: int| 0 <= k < i ==> #[trigger] s@.subrange(k, k + part@.len()) != part@,
        decreases last - i,
    {
        let mut j: usize = 0;
        while j < wanted.len() && chars[i + j] == wanted[j]
            invariant
                j <= wanted@.len(),
                i + wanted@.len() <= len == chars@.len(),
                forall|k: int| 0 <= k < j ==> #[trigger] wanted@[k] == chars@[i + k],
            decreases wanted@.len() - j,
        {
            j = j + 1;
        }
        let ghost here = s@.subrange(i as int, i + part@.len());
        if j == wanted.len() {
            assert(here =~= part@);
            return true;
        }
        assert(here[j as int] != part@[j as int]);
        if i == last {
            return false;
        }
        i = i + 1;
    }
}

/// Whether an edit field of this name is the address bar of a folder.
pub fn is_address_bar(name: &str) -> (address: bool)
    ensures
        address == (holds(name@, "Address"@) || holds(name@, "Dirección"@)),
{
    contains(name, "Address") || contains(name, "Dirección")
}

/// The folders in which to look for one that a window title names only by its
/// last name, in order; `profile` is the folder of the user, empty where it is
/// not known.
pub fn title_bases(profile: String) -> (bases: Vec<String>)
    ensures
        texts(bases@) == if profile@.len() == 0 {
            seq!["C:\\Users"@, "C:\\"@]
        } else {
            seq![profile@, "C:\\Users"@, "C:\\"@]
        },
{
    let mut bases: Vec<String> = Vec::new();
    if !profile.as_str().is_empty() {
        bases.push(profile);
    }
    bases.push("C:\\Users".to_owned());
    bases.push("C:\\".to_owned());
    assert(texts(bases@) =~= if profile@.len() == 0 {
        seq!["C:\\Users"@, "C:\\"@]
    } else {
        seq![profile@, "C:\\Users"@, "C:\\"@]
    });
    bases
}

/// `s` with a backslash before each single quote.
pub open spec fn quoted(s: Seq<char>) -> Seq<char>
    decreases s.len(),
{
    if s.len() == 0 {
        s
    } else if s.last() == '\'' {
        quoted(s.drop_last()).push('\\').push('\'')
    } else {
        quoted(s.drop_last()).push(s.last())
    }
}

fn quote(s: &str) -> (text: String)
    ensures
        text@ == quoted(s@),
{
    let chars = chars_of(s);
    let mut text = String::new();
    let mut i: usize = 0;
    while i < chars.len()
        invariant
            i <= chars@.len(),
            chars@ == s@,
            text@ == quoted(s@.take(i as int)),
        decreases chars@.len() - i,
    {
        assert(s@.take(i + 1).drop_last() =~= s@.take(i as int));
        if chars[i] == '\'' {
            text.push('\\');
        }
        text.push(chars[i]);
        i = i + 1;
    }
    assert(s@.take(i as int) =~= s@);
    text
}

/// The script that shows a dialog for choosing a folder.
pub open spec fn dialog_script(title: Seq<char>) -> Seq<char> {
    "Add-Type -AssemblyName System.Windows.Forms;$d = New-Object System.Windows.Forms.FolderBrowserDialog;$d.Description = '"@
        + quoted(title)
        + "';$d.ShowNewFolderButton = $true;if ($d.ShowDialog() -eq 'OK') { Write-Output $d.SelectedPath }"@
}

/// The script that shows a dialog with the given title for choosing a folder.
pub fn folder_dialog_script(title: &str) -> (script: String)
    ensures
        script@ == dialog_script(title@),
{
    let mut script =
        "Add-Type -AssemblyName System.Windows.Forms;$d = New-Object System.Windows.Forms.FolderBrowserDialog;$d.Description = '".to_owned();
    script.append(quote(title).as_str());
    script.append(
        "';$d.ShowNewFolderButton = $true;if ($d.ShowDialog() -eq 'OK') { Write-Output $d.SelectedPath }",
    );
    script
}

/// The folder that was chosen, by what the script wrote; `None` where nothing
/// was.
pub fn chosen_folder(output: &str) -> (folder: Option<String>)
    ensures
        match folder {
            Some(path) => path@ == trimmed(output@) && path@.len() > 0,
            None => trimmed(output@).len() == 0,
        },
{
    let path = trim(output);
    if path.as_str().is_empty() {
        None
    } else {
        Some(path)
    }
}

/// The shell is believed before the address bar, and that before the title.
pub proof fn law_folder_is_asked_for_in_order(
    shell: Option<String>,
    address_bar: Option<String>,
    title: Option<String>,
    path: Option<String>,
)
    requires
        call_ensures(get_active_explorer_path, (shell, address_bar, title), path),
    ensures
        shell is Some ==> path == shell,
        shell is None && address_bar is Some ==> path == address_bar,
        shell is None && address_bar is None ==> path == title,
{
}

/// An edit field is the address bar if and only if its name holds the word for it, in
/// either language, wherever it stands.
pub proof fn law_address_bar_is_known_by_its_name(
    name: &str,
    address: bool,
    before: Seq<char>,
    after: Seq<char>,
)
    requires
        call_ensures(is_address_bar, (name,), address),
    ensures
        name@ == before + "Address"@ + after ==> address,
        name@ == before + "Dirección"@ + after ==> address,
        address ==> exists|front: Seq<char>, word: Seq<char>, back: Seq<char>|
            name@ == #[trigger] (front + word + back) && (word == "Address"@ || word
                == "Dirección"@),
{
    if name@ == before + "Address"@ + after {
        lemma_holds_part(before, "Address"@, after);
    }
    if name@ == before + "Dirección"@ + after {
        lemma_holds_part(before, "Dirección"@, after);
    }
    if address {
        let word = if holds(name@, "Address"@) {
            "Address"@
        } else {
            "Dirección"@
        };
        assert(holds(name@, word));
        let i = choose|i: int|
            0 <= i <= name@.len() - word.len() && #[trigger] name@.subrange(i, i + word.len())
                == word;
        let front = name@.take(i);
        let back = name@.skip(i + word.len());
        assert(name@ =~= front + word + back);
    }
}

proof fn lemma_holds_part(before: Seq<char>, part: Seq<char>, after: Seq<char>)
    ensures
        holds(before + part + after, part),
{
    let i = before.len() as int;
    assert((before + part + after).subrange(i, i + part.len()) =~= part);
}

/// The folder of the user is looked in first, where it is known; the root of the drive
/// is looked in last.
pub proof fn law_own_folder_is_looked_in_first(profile: String, bases: Vec<String>)
    requires
        call_ensures(title_bases, (profile,), bases),
    ensures
        profile@.len() > 0 ==> bases@.len() == 3 && bases@[0]@ == profile@,
        profile@.len() == 0 ==> bases@.len() == 2,
        bases@[bases@.len() - 2]@ == "C:\\Users"@,
        bases@[bases@.len() - 1]@ == "C:\\"@,
{
    let all = texts(bases@);
    assert(all.len() == bases@.len());
    assert(all[all.len() - 1] == bases@[bases@.len() - 1]@);
    assert(all[all.len() - 2] == bases@[bases@.len() - 2]@);
    assert(all[0] == bases@[0]@);
}

/// In quoted text every single quote has a backslash before it, and nothing else was
/// changed.
pub proof fn law_quotes_are_escaped(s: Seq<char>, i: int)
    requires
        0 <= i < quoted(s).len(),
    ensures
        quoted(s)[i] == '\'' ==> i > 0 && quoted(s)[i - 1] == '\\',
        quoted(s).filter(|c: char| c != '\\') == s.filter(|c: char| c != '\\'),
        quoted(s).len() == s.len() + s.filter(|c: char| c == '\'').len(),
    decreases s.len(),
{
    let plain = |c: char| c != '\\';
    let quote = |c: char| c == '\'';
    reveal(Seq::filter);
    let rest = s.drop_last();
    let before = quoted(rest);
    if before.len() > 0 {
        law_quotes_are_escaped(
            rest,
            if i < before.len() {
                i
            } else {
                0
            },
        );
    } else {
        lemma_nothing_to_quote(rest);
    }
    if s.last() == '\'' {
        let once = before.push('\\');
        assert(once.drop_last() =~= before);
        assert(once.filter(plain) == before.filter(plain));
        assert(once.push('\'').drop_last() =~= once);
    } else {
        assert(before.push(s.last()).drop_last() =~= before);
    }
}

proof fn lemma_nothing_to_quote(s: Seq<char>)
    requires
        quoted(s).len() == 0,
    ensures
        s.len() == 0,
        s.filter(|c: char| c != '\\') == Seq::<char>::empty(),
        quoted(s).filter(|c: char| c != '\\') == Seq::<char>::empty(),
        s.filter(|c: char| c == '\'').len() == 0,
{
    reveal(Seq::filter);
}

/// The title stands, quoted, between the quotes of the script.
pub proof fn law_script_quotes_the_title(title: &str, script: String)
    requires
        call_ensures(folder_dialog_script, (title,), script),
    ensures
        holds(script@, quoted(title@)),
{
    lemma_holds_part(
        "Add-Type -AssemblyName System.Windows.Forms;$d = New-Object System.Windows.Forms.FolderBrowserDialog;$d.Description = '"@,
        quoted(title@),
        "';$d.ShowNewFolderButton = $true;if ($d.ShowDialog() -eq 'OK') { Write-Output $d.SelectedPath }"@,
    );
}

/// A folder was chosen if and only if the script wrote something, and it is that, up to
/// the spaces around it.
pub proof fn law_chosen_folder_is_what_was_written(output: &str, folder: Option<String>)
    requires
        call_ensures(chosen_folder, (output,), folder),
    ensures
        folder is Some <==> trimmed(output@).len() > 0,
        folder is Some ==> folder->0@ == trimmed(output@),
{
}

/// Only the two classes of Explorer's windows show a folder.
pub proof fn law_folders_are_shown_by_explorer(class: &str, explorer: bool)
    requires
        call_ensures(is_explorer_window, (class,), explorer),
    ensures
        class@ == "CabinetWClass"@ || class@ == "ExploreWClass"@ <==> explorer,
{
}

} // verus!
