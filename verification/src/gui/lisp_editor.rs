use crate::gui::eval_block::{
    handle_input_spec, insert_text_spec, BlockView, EditEvent, LispEvalBlock,
};
use vstd::prelude::*;

verus! {

/// The views of a sequence of blocks.
pub open spec fn blocks_view(blocks: Seq<LispEvalBlock>) -> Seq<BlockView> {
    blocks.map_values(|b: LispEvalBlock| b@)
}

/// What the editor is to a contract: its blocks, and which one is selected.
pub struct EditorView {
    pub blocks: Seq<BlockView>,
    pub selected: nat,
}

/// `blocks` with the mark of selection on the block at `index` alone.
pub open spec fn marked(blocks: Seq<BlockView>, index: int) -> Seq<BlockView> {
    Seq::new(blocks.len(), |i: int| BlockView { is_selected: i == index, ..blocks[i] })
}

/// Whether the editor has a block, the selected one alone is marked, and
/// the cursor of every block stands in its text.
pub open spec fn editor_wf(e: EditorView) -> bool {
    &&& e.selected < e.blocks.len()
    &&& forall|i: int|
        0 <= i < e.blocks.len() ==> ((#[trigger] e.blocks[i]).is_selected <==> i == e.selected)
    &&& forall|i: int|
        0 <= i < e.blocks.len() ==> (#[trigger] e.blocks[i]).cursor <= e.blocks[i].text.len()
}

pub open spec fn empty_block() -> BlockView {
    BlockView { text: Seq::empty(), cursor: 0, is_selected: false }
}

/// Typing leaves the mark of selection of a block as it was.
pub proof fn lemma_typing_keeps_selection(b: BlockView, s: Seq<char>)
    ensures
        insert_text_spec(b, s).is_selected == b.is_selected,
    decreases s.len(),
{
    if s.len() > 0 {
        lemma_typing_keeps_selection(b, s.drop_last());
    }
}

/// No event changes the mark of selection of a block.
pub proof fn lemma_input_keeps_selection(b: BlockView, event: EditEvent)
    ensures
        handle_input_spec(b, event).is_selected == b.is_selected,
{
    match event {
        EditEvent::Text(s) => {
            lemma_typing_keeps_selection(b, s@);
        },
        _ => {},
    }
}

/// The blocks of the editor and the selection among them.
pub struct LispEditor {
    block: Vec<LispEvalBlock>,
    selected_block: usize,
}

impl View for LispEditor {
    type V = EditorView;

    closed spec fn view(&self) -> EditorView {
        EditorView { blocks: blocks_view(self.block@), selected: self.selected_block as nat }
    }
}

impl LispEditor {
    /// Whether the editor has a block, and the selected one alone is marked.
    pub open spec fn wf(&self) -> bool {
        editor_wf(self@)
    }

    /// An editor with one empty block, which is selected.
    pub fn new() -> (r: Self)
        ensures
            r.wf(),
            r@ == (EditorView {
                blocks: seq![BlockView { is_selected: true, ..empty_block() }],
                selected: 0,
            }),
    {
        let mut first = LispEvalBlock::default();
        first.set_selected(true);
        let mut block: Vec<LispEvalBlock> = Vec::new();
        block.push(first);
        let r = LispEditor { block, selected_block: 0 };
        assert(r@.blocks =~= seq![BlockView { is_selected: true, ..empty_block() }]);
        r
    }

    pub fn len(&self) -> (r: usize)
        ensures
            r == self@.blocks.len(),
    {
        self.block.len()
    }

    pub fn selected_block(&self) -> (r: usize)
        ensures
            r == self@.selected,
    {
        self.selected_block
    }

    fn select_in(block: &mut Vec<LispEvalBlock>, selected: usize, index: usize)
        requires
            selected < old(block).len(),
            index < old(block).len(),
            forall|i: int|
                0 <= i < old(block).len() ==> ((#[trigger] blocks_view(old(block)@)[i]).is_selected
                    <==> i == selected),
        ensures
            blocks_view(final(block)@) == marked(blocks_view(old(block)@), index as int),
    {
        block[selected].set_selected(false);
        block[index].set_selected(true);
        assert(blocks_view(block@) =~= marked(blocks_view(old(block)@), index as int));
    }

    /// Moves the selection to the block at `index`.
    pub fn select_block(&mut self, index: usize)
        requires
            old(self).wf(),
            index < old(self)@.blocks.len(),
        ensures
            final(self).wf(),
            final(self)@ == (EditorView {
                blocks: marked(old(self)@.blocks, index as int),
                selected: index as nat,
            }),
    {
        Self::select_in(&mut self.block, self.selected_block, index);
        self.selected_block = index;
    }

    /// Hands the event to the selected block.
    pub fn handle_input(&mut self, event: EditEvent)
        requires
            old(self).wf(),
            event is Text ==> old(self)@.blocks[old(self)@.selected as int].text.len() + 2
                * event->Text_0@.len() <= usize::MAX,
        ensures
            final(self).wf(),
            final(self)@ == (EditorView {
                blocks: old(self)@.blocks.update(
                    old(self)@.selected as int,
                    handle_input_spec(old(self)@.blocks[old(self)@.selected as int], event),
                ),
                selected: old(self)@.selected,
            }),
    {
        assert(self@.blocks.len() == self.block@.len());
        let ghost before = self@.blocks[self@.selected as int];
        self.block[self.selected_block].handle_input(event);
        assert(blocks_view(self.block@) =~= old(self)@.blocks.update(
            old(self)@.selected as int,
            handle_input_spec(before, event),
        ));
        proof {
            lemma_input_keeps_selection(before, event);
        }
    }

    /// The text of the block at `index`.
    pub fn text_of(&self, index: usize) -> (r: String)
        requires
            index < self@.blocks.len(),
        ensures
            r@ == self@.blocks[index as int].text,
    {
        assert(self@.blocks.len() == self.block@.len());
        self.block[index].get_input_text()
    }

    /// The place of the cursor in the block at `index`.
    pub fn cursor_of(&self, index: usize) -> (r: usize)
        requires
            index < self@.blocks.len(),
        ensures
            r == self@.blocks[index as int].cursor,
    {
        assert(self@.blocks.len() == self.block@.len());
        self.block[index].cursor_pos()
    }

    /// Adds an empty block at the end and selects it.
    pub fn add_block(&mut self)
        requires
            old(self).wf(),
            old(self)@.blocks.len() < usize::MAX,
        ensures
            final(self).wf(),
            final(self)@ == (EditorView {
                blocks: marked(
                    old(self)@.blocks.push(empty_block()),
                    old(self)@.blocks.len() as int,
                ),
                selected: old(self)@.blocks.len(),
            }),
    {
        self.block.push(LispEvalBlock::default());
        assert(blocks_view(self.block@) =~= old(self)@.blocks.push(empty_block()));
        let last = self.block.len() - 1;
        Self::select_in(&mut self.block, self.selected_block, last);
        self.selected_block = last;
    }

    /// Removes the selected block and selects the one that takes its
    /// place, or the last one where the last was removed.
    pub fn rm_cur_block(&mut self)
        requires
            old(self).wf(),
            old(self)@.blocks.len() >= 2,
        ensures
            final(self).wf(),
            ({
                let rest = old(self)@.blocks.remove(old(self)@.selected as int);
                let next = if old(self)@.selected >= rest.len() {
                    (rest.len() - 1) as nat
                } else {
                    old(self)@.selected
                };
                final(self)@ == (EditorView { blocks: marked(rest, next as int), selected: next })
            }),
    {
        let _ = self.block.remove(self.selected_block);
        assert(blocks_view(self.block@) =~= old(self)@.blocks.remove(old(self)@.selected as int));
        let next = if self.selected_block >= self.block.len() {
            self.block.len() - 1
        } else {
            self.selected_block
        };
        self.block[next].set_selected(true);
        assert(blocks_view(self.block@) =~= marked(
            old(self)@.blocks.remove(old(self)@.selected as int),
            next as int,
        ));
        self.selected_block = next;
    }

    /// Selects the block after the selected one, the first after the last.
    pub fn next_block(&mut self)
        requires
            old(self).wf(),
        ensures
            final(self).wf(),
            ({
                let next = if old(self)@.selected + 1 == old(self)@.blocks.len() {
                    0nat
                } else {
                    old(self)@.selected + 1
                };
                final(self)@ == (EditorView {
                    blocks: marked(old(self)@.blocks, next as int),
                    selected: next,
                })
            }),
    {
        assert(self@.blocks.len() == self.block@.len());
        let n = self.block.len();
        let next = if self.selected_block + 1 == n {
            0
        } else {
            self.selected_block + 1
        };
        self.select_block(next);
    }

    /// Selects the block before the selected one, the last before the first.
    pub fn prev_block(&mut self)
        requires
            old(self).wf(),
        ensures
            final(self).wf(),
            ({
                let prev = if old(self)@.selected == 0 {
                    (old(self)@.blocks.len() - 1) as nat
                } else {
                    (old(self)@.selected - 1) as nat
                };
                final(self)@ == (EditorView {
                    blocks: marked(old(self)@.blocks, prev as int),
                    selected: prev,
                })
            }),
    {
        assert(self@.blocks.len() == self.block@.len());
        let prev = if self.selected_block == 0 {
            self.block.len() - 1
        } else {
            self.selected_block - 1
        };
        self.select_block(prev);
    }
}

} // verus!
