//! Layered git configuration and the remotes it describes.
//!
//! A [`config::Config`] is a cascade of up to six configuration documents: it answers
//! typed lookups by consulting its sources in a fixed order of precedence, through a
//! [`trust::TrustFilter`] where the caller wants one. A [`remote::Repository`] reads the
//! `remote.<name>.*` keys from such a cascade and turns them into a [`remote::Remote`]
//! with parsed urls and ref-specs in normal form, or says exactly why there is none.
//!
//! Beside that the crate holds what a front end needs around remotes: the edits that
//! change a [`reference::Reference`], and the text of a [`changelog::ChangeLog`].
//!
//! The library does no input or output. Files and the environment are read by the
//! caller, who hands over what was found; edits of references are described, not
//! performed; text is written into a buffer.
//!
//! Every executable function carries a contract that Verus proves. Urls are parsed by
//! `git-url` and ref-specs by `git-refspec`; the calls are wrapped, and what the wrappers
//! say of the parsers is believed, not proved. Each wrapper says so.

pub mod changelog;
pub mod config;
pub mod decode;
pub mod document;
pub mod env;
pub mod parse;
pub mod reference;
pub mod refspec;
pub mod remote;
pub mod render;
pub mod rewrite;
pub mod source;
pub mod text;
pub mod trust;
pub mod url;
