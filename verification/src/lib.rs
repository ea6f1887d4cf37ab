//! The incremental syntax-highlighting engine of the Whistler editor.
//!
//! The engine turns the text of a document into coloured spans, line by line, and keeps
//! what it has learnt: after an edit it parses again only what the edit can have changed,
//! and only when the editor asks for it.
//!
//! * [`registry`] resolves a file extension to a grammar, whatever the extension.
//! * [`theme`] maps scope names to colours, the longest matching rule first.
//! * [`cache`] keeps one snapshot of the engine for each line boundary.
//! * [`token`] is one step of the engine: a line and its entering state give spans and
//!   the next state.
//! * [`spans`] lays the engine's pieces over the bytes of a line.
//! * [`syntax`] is the session of one document, which the editor talks to.
//! * [`laws`] states what holds of a session however it is used.
//! * [`bindings`] and [`text`] hold what is taken on trust: the calls into `syntect` and
//!   into the parts of `std` that come without a verified contract.
//!
//! Beside the engine stand a few smaller helpers of the editor: [`color`] reads colours in
//! hexadecimal notation, [`icons`] picks the icon of a file or folder, [`search`] finds the
//! lines of a file that hold a query, and [`workspace`] keeps the books on tabs, recent
//! files and the file finder.
//!
//! Grammars and scope resolution are `syntect`'s. Their results enter the contracts under
//! names of their own, such as [`bindings::parse_outcome`]; everything built around them is
//! proved for whatever they return.

pub mod bindings;
pub mod cache;
pub mod color;
pub mod icons;
pub mod laws;
pub mod registry;
pub mod search;
pub mod spans;
pub mod syntax;
pub mod text;
pub mod theme;
pub mod token;
pub mod workspace;
