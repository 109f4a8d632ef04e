pub mod eval_block;
pub mod lisp_editor;

pub use eval_block::LispEvalBlock;
pub use lisp_editor::LispEditor;
