//! The traversal request: where a listing starts, how deep it goes, and what it leaves out.

use vstd::prelude::*;

verus! {

/// The depth of a listing when none is asked for.
pub const DEFAULT_DEPTH: u32 = 1;

/// What the command line says.
#[derive(Debug)]
pub struct Cli {
    /// How many levels below the start are listed.
    pub depth: u32,
    /// Where the listing starts.
    pub location: String,
    /// List down to every leaf, whatever `depth` says.
    pub leaf: bool,
    /// Show the entries whose name starts with a dot too.
    pub all: bool,
}

/// A traversal request as the contracts see it.
pub struct Request {
    pub path: Seq<char>,
    pub depth: nat,
    pub indent: nat,
    pub leaf: bool,
    pub hide_dotfiles: bool,
}

impl Request {
    /// The depth budget is used up: the directory is neither listed nor descended into.
    pub open spec fn exhausted(self) -> bool {
        !self.leaf && self.depth == 0
    }

    /// The request for a subdirectory at `path`: one level further in, one level of budget
    /// less, unless the listing goes down to the leaves and the budget is left alone.
    pub open spec fn child(self, path: Seq<char>) -> Request {
        Request {
            path,
            depth: if self.leaf {
                self.depth
            } else {
                (self.depth - 1) as nat
            },
            indent: self.indent + 1,
            leaf: self.leaf,
            hide_dotfiles: self.hide_dotfiles,
        }
    }
}

/// Why a traversal was refused.
#[derive(Debug)]
pub enum TraversalError {
    /// The path to list is no directory.
    NotADirectory(String),
}

/// The one line that reports that `path` is no directory.
pub open spec fn not_a_directory_text(path: Seq<char>) -> Seq<char> {
    path + " is not a directory"@
}

impl TraversalError {
    /// The path that the error is about.
    pub open spec fn path(self) -> Seq<char> {
        match self {
            TraversalError::NotADirectory(path) => path@,
        }
    }

    /// The line to show to the user.
    pub fn message(&self) -> (text: String)
        ensures
            text@ == not_a_directory_text(self.path()),
    {
        match self {
            TraversalError::NotADirectory(path) => {
                let mut text = path.clone();
                text.append(" is not a directory");
                text
            },
        }
    }
}

/// The request that one directory is listed with. A subdirectory gets a request of its own,
/// derived by `go_deep`; no request is ever changed.
#[derive(Clone, Copy, Debug)]
pub struct WDTArgs<'a> {
    /// The directory to list.
    pub path: &'a str,
    /// How many levels may still be listed; not looked at when `leaf` is set.
    pub depth: u32,
    /// How many levels below the start this directory lies.
    pub indent: u32,
    /// List down to every leaf.
    pub leaf: bool,
    /// Leave out the entries whose name starts with a dot.
    pub hide_dotfiles: bool,
}

impl<'a> View for WDTArgs<'a> {
    type V = Request;

    open spec fn view(&self) -> Request {
        Request {
            path: self.path@,
            depth: self.depth as nat,
            indent: self.indent as nat,
            leaf: self.leaf,
            hide_dotfiles: self.hide_dotfiles,
        }
    }
}

impl<'a> WDTArgs<'a> {
    /// The request for the start of the listing that the command line asks for.
    pub fn from_cli(cli: &'a Cli) -> (args: Self)
        ensures
            args@ == (Request {
                path: cli.location@,
                depth: cli.depth as nat,
                indent: 0,
                leaf: cli.leaf,
                hide_dotfiles: !cli.all,
            }),
    {
        WDTArgs {
            path: cli.location.as_str(),
            depth: cli.depth,
            indent: 0,
            leaf: cli.leaf,
            hide_dotfiles: !cli.all,
        }
    }

    pub fn indent(&self) -> (level: usize)
        ensures
            level == self.indent,
    {
        self.indent as usize
    }

    /// The request for the subdirectory at `path`.
    pub fn go_deep(&self, path: &'a str) -> (child: Self)
        requires
            !self@.exhausted(),
            self.indent < u32::MAX,
        ensures
            child@ == self@.child(path@),
    {
        let depth: u32 = if self.leaf {
            self.depth
        } else {
            self.depth - 1
        };
        WDTArgs {
            path,
            depth,
            indent: self.indent + 1,
            leaf: self.leaf,
            hide_dotfiles: self.hide_dotfiles,
        }
    }

    /// Decides, before anything is read, what becomes of the request, from whether its path
    /// is a directory: an error when it is none, `false` when the depth budget is used up
    /// and the directory stays closed, `true` when it is to be listed.
    pub fn enter(&self, is_dir: bool) -> (verdict: Result<bool, TraversalError>)
        ensures
            !is_dir <==> verdict is Err,
            verdict matches Err(e) ==> e.path() == self.path@,
            verdict matches Ok(open) ==> open == !self@.exhausted(),
    {
        if !is_dir {
            Err(TraversalError::NotADirectory(String::from_str(self.path)))
        } else if !self.leaf && self.depth == 0 {
            Ok(false)
        } else {
            Ok(true)
        }
    }
}

impl<'a> Default for WDTArgs<'a> {
    /// One level of the current directory, dotfiles left out.
    fn default() -> (args: Self)
        ensures
            args@ == (Request {
                path: "."@,
                depth: DEFAULT_DEPTH as nat,
                indent: 0,
                leaf: false,
                hide_dotfiles: true,
            }),
    {
        WDTArgs { path: ".", depth: DEFAULT_DEPTH, indent: 0, leaf: false, hide_dotfiles: true }
    }
}

} // verus!
