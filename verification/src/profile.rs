//! The rewriting of a shell profile on activation: the lines that an earlier
//! activation left are dropped, and two new export lines are written at the
//! end.
//!
//! Which lines are dropped is decided by how a line reads, not by a marker:
//! a line of the user's own that reads the same way is dropped too.

use vstd::prelude::*;
use vstd::string::*;
use crate::text::{
    contains, contains_text, join, lemma_join_push, lines, lines_of, starts_with,
    starts_with_text, texts,
};

verus! {

/// The host flavors that keep the persistent environment in a shell profile.
#[derive(Clone, Copy, Debug, PartialEq, Eq, Structural)]
pub enum Flavor {
    /// macOS, whose profile is that of zsh.
    MacOs,
    /// Every other host of this kind, whose profile is that of bash.
    Other,
}

/// The name of the profile file of a flavor, below the home directory.
pub open spec fn profile_name(flavor: Flavor) -> Seq<char> {
    match flavor {
        Flavor::MacOs => ".zshrc"@,
        Flavor::Other => ".bashrc"@,
    }
}

/// The line declares the target variable.
pub open spec fn declares_home(line: Seq<char>) -> bool {
    starts_with(line, "export JAVA_HOME="@)
}

/// The line names the `bin` directory below the target variable.
pub open spec fn uses_home_bin(line: Seq<char>) -> bool {
    contains(line, "$JAVA_HOME/bin"@)
}

/// The line is one that an activation drops.
pub open spec fn is_stale(line: Seq<char>) -> bool {
    declares_home(line) || uses_home_bin(line)
}

/// The test by which lines are kept.
pub open spec fn keeps() -> spec_fn(Seq<char>) -> bool {
    |line: Seq<char>| !is_stale(line)
}

/// The lines of a profile that an activation keeps, in their order.
pub open spec fn kept_lines(content: Seq<char>) -> Seq<Seq<char>> {
    lines(content).filter(keeps())
}

/// The profile after an activation of `path`: the kept lines, each on a line
/// of its own, then the export of the target variable and the export that
/// puts its `bin` directory in front of the search path.
pub open spec fn rewritten(content: Seq<char>, path: Seq<char>) -> Seq<char> {
    join(kept_lines(content), seq!['\n']) + "\nexport JAVA_HOME="@ + path
        + "\nexport PATH=$JAVA_HOME/bin:$PATH\n"@
}

/// What the user is told after the profile `profile` was rewritten.
pub open spec fn reload_hint_text(profile: Seq<char>) -> Seq<char> {
    "Please run 'source "@ + profile + "' or restart your terminal to apply changes."@
}

/// The name of the profile file of a flavor, below the home directory.
pub fn profile_file_name(flavor: Flavor) -> (name: &'static str)
    ensures
        name@ == profile_name(flavor),
{
    match flavor {
        Flavor::MacOs => ".zshrc",
        Flavor::Other => ".bashrc",
    }
}

/// Whether an activation drops the line.
pub fn is_stale_line(line: &str) -> (stale: bool)
    ensures
        stale == is_stale(line@),
{
    starts_with_text(line, "export JAVA_HOME=") || contains_text(line, "$JAVA_HOME/bin")
}

/// The profile after an activation of `path`.
pub fn rewrite_profile(content: &str, path: &str) -> (out: String)
    ensures
        out@ == rewritten(content@, path@),
{
    let all = lines_of(content);
    let ghost wanted = lines(content@);
    let mut out = String::new();
    let mut empty = true;
    let mut i: usize = 0;
    proof {
        reveal(Seq::filter);
        assert(wanted.take(0) =~= Seq::<Seq<char>>::empty());
        assert(texts(all@).len() == all@.len());
    }
    while i < all.len()
        invariant
            i <= all.len(),
            texts(all@) == wanted,
            out@ == join(wanted.take(i as int).filter(keeps()), seq!['\n']),
            empty == (wanted.take(i as int).filter(keeps()).len() == 0),
        decreases all.len() - i,
    {
        let ghost done = wanted.take(i as int).filter(keeps());
        proof {
            reveal(Seq::filter);
            reveal_strlit("\n");
            assert("\n"@ =~= seq!['\n']);
            assert(texts(all@)[i as int] == all@[i as int]@);
            assert(wanted.take(i + 1).drop_last() =~= wanted.take(i as int));
            assert(wanted.take(i + 1).last() == wanted[i as int]);
            lemma_join_push(done, wanted[i as int], seq!['\n']);
        }
        if !is_stale_line(all[i].as_str()) {
            if !empty {
                out.append("\n");
            }
            out.append(all[i].as_str());
            empty = false;
        }
        i += 1;
    }
    proof {
        assert(wanted.take(all.len() as int) =~= wanted);
    }
    out.append("\nexport JAVA_HOME=");
    out.append(path);
    out.append("\nexport PATH=$JAVA_HOME/bin:$PATH\n");
    out
}

/// What the user is told after the profile `profile` was rewritten: to read
/// it into the running shell, or to open a new terminal.
pub fn reload_hint(profile: &str) -> (out: String)
    ensures
        out@ == reload_hint_text(profile@),
{
    let mut out = String::from_str("Please run 'source ");
    out.append(profile);
    out.append("' or restart your terminal to apply changes.");
    out
}

} // verus!
