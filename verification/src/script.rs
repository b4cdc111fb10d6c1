//! The option records that layout scripts hand to the builders, and their
//! translation into builder calls. The scripting engine itself lives at the
//! boundary; it deserializes a script's option table into these records and
//! calls the translations below.

use crate::text::{all_digits, dec_value, trim_spec, trim_ws};
use crate::tmux::pane::{Direction, Pane, SplitBuilder, SplitSize};
use crate::tmux::session::{Session, SessionBuilder};
use crate::tmux::window::WindowBuilder;
use crate::tmux::{RootOptions, TmuxError};
use vstd::prelude::*;
use vstd::string::StrSliceExecFns;

verus! {

/// The failures of translating script options.
#[derive(Debug)]
pub enum Error {
    /// A size that is neither a number nor a number with a percent sign.
    InvalidSize(String),
    /// A failure of the underlying builder.
    Tmux(TmuxError),
}

/// A session's script options.
#[derive(Debug)]
pub struct SessionOptions {
    pub root: Option<String>,
}

/// A window's script options.
#[derive(Debug)]
pub struct WindowOptions {
    pub name: Option<String>,
    pub root: Option<String>,
    pub raw_command: Option<String>,
}

/// A split's script options: the size is written as text, a bare number for
/// cells or a number with a percent sign.
#[derive(Debug)]
pub struct SplitOptions {
    pub root: Option<String>,
    pub size: Option<String>,
}

/// What a well-formed size text denotes.
pub open spec fn size_text_ok(t: Seq<char>) -> bool {
    if t.len() > 0 && t.last() == '%' {
        let body = t.drop_last();
        body.len() > 0 && all_digits(body) && dec_value(body) <= u8::MAX
    } else {
        t.len() > 0 && all_digits(t) && dec_value(t) <= u32::MAX
    }
}

pub open spec fn size_of_text(t: Seq<char>) -> SplitSize {
    if t.len() > 0 && t.last() == '%' {
        SplitSize::Percentage(dec_value(t.drop_last()) as u8)
    } else {
        SplitSize::Absolute(dec_value(t) as u32)
    }
}

/// Reads a split size out of its textual form, after trimming: digits alone
/// are an absolute cell count, digits before a percent sign a percentage.
pub fn parse_split_size(s: &str) -> (r: Result<SplitSize, Error>)
    ensures
        size_text_ok(trim_spec(s@)) <==> r is Ok,
        r matches Ok(size) ==> size == size_of_text(trim_spec(s@)),
        r matches Err(e) ==> e is InvalidSize,
{
    let t = trim_ws(s);
    let n = t.as_str().unicode_len();
    if n > 0 && t.as_str().get_char(n - 1) == '%' {
        let body = t.as_str().substring_char(0, n - 1);
        proof {
            assert(body@ =~= trim_spec(s@).drop_last());
        }
        match crate::text::parse_u64(body) {
            Some(v) => {
                if v <= 255 {
                    Ok(SplitSize::Percentage(v as u8))
                } else {
                    Err(Error::InvalidSize(t))
                }
            },
            None => Err(Error::InvalidSize(t)),
        }
    } else {
        match crate::text::parse_u64(t.as_str()) {
            Some(v) => {
                if v <= 0xffff_ffff {
                    Ok(SplitSize::Absolute(v as u32))
                } else {
                    Err(Error::InvalidSize(t))
                }
            },
            None => Err(Error::InvalidSize(t)),
        }
    }
}

impl SessionOptions {
    /// The session builder these options describe.
    pub fn try_into_builder(self, session_name: String) -> (r: Result<
        SessionBuilder,
        TmuxError,
    >)
        ensures
            r matches Ok(b) ==> {
                &&& b.session_name == session_name
                &&& (self.root is None ==> b.root.opt() == RootOptions::Default)
                &&& (self.root matches Some(p) ==> b.root.opt() == RootOptions::Custom(p))
            },
            r matches Err(e) ==> (e matches TmuxError::RootNotFound { path } && Some(path)
                == self.root),
    {
        let mut builder = SessionBuilder::new(session_name);
        match self.root {
            None => Ok(builder),
            Some(p) => {
                builder.root(p)?;
                Ok(builder)
            },
        }
    }
}

impl WindowOptions {
    /// The window builder these options describe.
    pub fn try_into_builder(self, session: &Session) -> (r: Result<WindowBuilder, TmuxError>)
        ensures
            r matches Ok(b) ==> {
                &&& b.session_target == session.target
                &&& b.opts.name == self.name
                &&& b.opts.shell_command == self.raw_command
                &&& (self.root is None ==> b.opts.root.opt() == RootOptions::Default)
                &&& (self.root matches Some(p) ==> b.opts.root.opt() == RootOptions::Custom(
                    p,
                ))
            },
            r matches Err(e) ==> (e matches TmuxError::RootNotFound { path } && Some(path)
                == self.root),
    {
        let mut builder = WindowBuilder::new(session);
        match self.name {
            Some(n) => {
                builder = builder.name(n);
            },
            None => {},
        }
        match self.root {
            Some(p) => {
                builder = builder.root(p)?;
            },
            None => {},
        }
        match self.raw_command {
            Some(c) => {
                builder = builder.raw_command(c);
            },
            None => {},
        }
        Ok(builder)
    }
}

impl SplitOptions {
    /// The split builder these options describe, against the pane being
    /// split.
    pub fn try_into_builder(self, sibling_pane: &Pane, direction: Direction) -> (r: Result<
        SplitBuilder,
        Error,
    >)
        ensures
            r matches Ok(b) ==> {
                &&& b.sibling_target == sibling_pane.target
                &&& b.opts.direction == direction
                &&& (self.size is None ==> b.opts.size is None)
                &&& (self.size matches Some(s) ==> b.opts.size == Some(
                    size_of_text(trim_spec(s@)),
                ))
                &&& (self.root is None ==> b.opts.root.opt() == RootOptions::Default)
                &&& (self.root matches Some(p) ==> b.opts.root.opt() == RootOptions::Custom(
                    p,
                ))
            },
            self.size matches Some(s) && !size_text_ok(trim_spec(s@)) ==> (r matches Err(e)
                && e is InvalidSize),
    {
        let size: Option<SplitSize> = match &self.size {
            Some(s) => {
                match parse_split_size(s.as_str()) {
                    Ok(v) => Some(v),
                    Err(e) => {
                        return Err(e);
                    },
                }
            },
            None => None,
        };
        let mut builder = sibling_pane.split(direction);
        match self.root {
            Some(p) => {
                builder = match builder.root(p) {
                    Ok(b) => b,
                    Err(e) => {
                        return Err(Error::Tmux(e));
                    },
                };
            },
            None => {},
        }
        match size {
            Some(s) => Ok(builder.size(s)),
            None => Ok(builder),
        }
    }
}

} // verus!
