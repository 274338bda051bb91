//! Terminal emulation engine: a character grid with cursor and scrollback,
//! a VT/ANSI escape-sequence interpreter, a shelf-packed glyph atlas, and
//! the session state machine that binds a shell's output stream to a
//! render-visible snapshot.

mod atlas;
mod grid;
mod input;
mod interp;
mod session;

pub use atlas::AtlasError;
pub use atlas::AtlasRect;
pub use atlas::GlyphAtlas;
pub use atlas::GlyphKey;
pub use atlas::expand_coverage;
pub use grid::TerminalCell;
pub use grid::TerminalGrid;
pub use input::KeyInput;
pub use input::encode_key;
pub use interp::Parser;
pub use interp::TerminalPerformer;
pub use session::RenderUpdate;
pub use session::Session;
pub use session::SessionAction;
pub use session::SessionEvent;
pub use session::SessionStatus;
pub use session::CELL_WIDTH_PX;
pub use session::DEFAULT_COLS;
pub use session::DEFAULT_ROWS;
pub use session::LINE_HEIGHT_PX;
pub use session::StepOutcome;
pub use session::run;
