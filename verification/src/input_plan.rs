//! Input transactions as plans: what is written to the child, piece by piece,
//! and the text against which an echo is verified.

use std::borrow::Cow;

use vstd::prelude::*;
use vstd::slice::{slice_subrange, slice_to_vec};
use vstd::utf8::encode_utf8;

use crate::encoder::{key_bytes, paste_bytes, InputEncoder, XtermEncoder};
use crate::error::{ErrorView, IoOperation, PaneError};
use crate::event::InputKind;
use crate::input::{no_modifiers, HostInput, KeyCode, KeyEventKind, KeyInput, KeyModifiers};
use crate::input_transaction::{
    law_needles_are_found, InputIntent, InputTransaction, InputVerification,
};
use crate::pane::{InputConfig, TerminalModes};
use crate::surface::{
    CellView, LineView, RowView, ScrollbackLine, ScrollbackSnapshot, SurfaceCell, SurfaceRow,
    SurfaceSnapshot,
};

verus! {

/// One write of an input transaction.
#[derive(Debug, Clone, PartialEq, Eq)]
pub struct InputWriteStep {
    /// Bytes to write.
    pub bytes: Vec<u8>,
    /// Kind under which the write is reported.
    pub input_kind: InputKind,
    /// Whether the write submits the input.
    pub submits: bool,
}

/// An [`InputWriteStep`] with its bytes as a sequence.
pub ghost struct StepView {
    pub bytes: Seq<u8>,
    pub input_kind: InputKind,
    pub submits: bool,
}

impl View for InputWriteStep {
    type V = StepView;

    open spec fn view(&self) -> StepView {
        StepView { bytes: self.bytes@, input_kind: self.input_kind, submits: self.submits }
    }
}

/// The views of a list of steps.
pub open spec fn step_views(steps: Seq<InputWriteStep>) -> Seq<StepView> {
    steps.map_values(|s: InputWriteStep| s@)
}

/// Everything that a list of steps writes.
pub open spec fn written(steps: Seq<StepView>) -> Seq<u8>
    decreases steps.len(),
{
    if steps.len() == 0 {
        seq![]
    } else {
        steps[0].bytes + written(steps.skip(1))
    }
}

/// The kind under which an input event is reported.
pub open spec fn input_kind(input: HostInput) -> InputKind {
    match input {
        HostInput::Key(_) => InputKind::Key,
        HostInput::Paste(_) => InputKind::Paste,
        _ => InputKind::Bytes,
    }
}

/// Keys are reported as keys, pastes as pastes, and all other input as bytes.
pub proof fn law_input_kinds(input: HostInput)
    ensures
        input is Key ==> input_kind(input) == InputKind::Key,
        input is Paste ==> input_kind(input) == InputKind::Paste,
        !(input is Key) && !(input is Paste) ==> input_kind(input) == InputKind::Bytes,
{
}

/// Returns the kind under which an input event is reported.
pub fn classify_input_kind(input: &HostInput) -> (kind: InputKind)
    ensures
        kind == input_kind(*input),
{
    match input {
        HostInput::Key(_) => InputKind::Key,
        HostInput::Paste(_) => InputKind::Paste,
        HostInput::Mouse(_) | HostInput::FocusGained | HostInput::FocusLost | HostInput::Resize(_)
        | HostInput::Raw(_) => InputKind::Bytes,
    }
}

/// A press of Enter.
pub open spec fn enter_press() -> KeyInput {
    KeyInput { code: KeyCode::Enter, modifiers: no_modifiers(), kind: KeyEventKind::Press }
}

/// A press of a character key with Control held.
pub open spec fn control_press(c: char) -> KeyInput {
    KeyInput {
        code: KeyCode::Char(c),
        modifiers: KeyModifiers { control: true, ..no_modifiers() },
        kind: KeyEventKind::Press,
    }
}

fn enter_key() -> (key: KeyInput)
    ensures
        key == enter_press(),
{
    KeyInput::new(KeyCode::Enter, KeyModifiers::default(), KeyEventKind::Press)
}

fn control_key(c: char) -> (key: KeyInput)
    ensures
        key == control_press(c),
{
    let mut modifiers = KeyModifiers::default();
    modifiers.control = true;
    KeyInput::new(KeyCode::Char(c), modifiers, KeyEventKind::Press)
}

/// `bytes` cut into pieces of `size` bytes; the last piece may be shorter.
pub open spec fn pieces(bytes: Seq<u8>, size: nat) -> Seq<Seq<u8>>
    decreases bytes.len(),
{
    if bytes.len() == 0 || size == 0 {
        seq![]
    } else if bytes.len() <= size {
        seq![bytes]
    } else {
        seq![bytes.take(size as int)] + pieces(bytes.skip(size as int), size)
    }
}

/// A write that submits nothing.
pub open spec fn quiet_step(bytes: Seq<u8>, input_kind: InputKind) -> StepView {
    StepView { bytes, input_kind, submits: false }
}

/// Whether a text has more than one line.
pub open spec fn multiline(text: Seq<char>) -> bool {
    text.contains('\n') || text.contains('\r')
}

/// The writes that insert a text: one bracketed paste where the text has more
/// than one line and the child wants pastes bracketed, else its bytes in
/// pieces of at most `chunk_size`, taken as one where it is zero.
pub open spec fn insert_steps(
    text: Seq<char>,
    chunk_size: usize,
    config: InputConfig,
    modes: TerminalModes,
) -> Seq<StepView> {
    if multiline(text) && modes.bracketed_paste {
        seq![quiet_step(paste_bytes(encode_utf8(text), config, modes), InputKind::Paste)]
    } else {
        let bytes = paste_bytes(
            encode_utf8(text),
            config,
            TerminalModes { bracketed_paste: false, ..modes },
        );
        let size: nat = if chunk_size == 0 {
            1
        } else {
            chunk_size as nat
        };
        pieces(bytes, size).map_values(|piece: Seq<u8>| quiet_step(piece, InputKind::Bytes))
    }
}

/// The write that submits: the configured Enter key.
pub open spec fn submit_step(config: InputConfig, modes: TerminalModes) -> StepView {
    StepView {
        bytes: key_bytes(enter_press(), config, modes),
        input_kind: InputKind::Key,
        submits: true,
    }
}

/// The writes of a key press.
pub open spec fn key_steps(key: KeyInput, config: InputConfig, modes: TerminalModes) -> Seq<
    StepView,
> {
    seq![quiet_step(key_bytes(key, config, modes), InputKind::Key)]
}

/// The writes of a transaction.
pub open spec fn planned(
    transaction: InputTransaction,
    config: InputConfig,
    modes: TerminalModes,
) -> Seq<StepView> {
    match transaction.intent {
        InputIntent::InsertText(text) => insert_steps(
            text@,
            transaction.chunk_size,
            config,
            modes,
        ),
        InputIntent::SubmitText(text) => insert_steps(
            text@,
            transaction.chunk_size,
            config,
            modes,
        ).push(submit_step(config, modes)),
        InputIntent::KeyChord(key) => key_steps(key, config, modes),
        InputIntent::Interrupt => key_steps(control_press('c'), config, modes),
        InputIntent::ClearInput => key_steps(control_press('u'), config, modes),
        InputIntent::RawBytes(bytes) => seq![quiet_step(bytes@, InputKind::Bytes)],
    }
}

/// Cutting bytes into pieces loses nothing, and no piece is empty or longer
/// than asked for.
pub proof fn law_pieces(bytes: Seq<u8>, size: nat)
    requires
        size > 0,
    ensures
        written(
            pieces(bytes, size).map_values(|piece: Seq<u8>| quiet_step(piece, InputKind::Bytes)),
        ) == bytes,
        forall|i: int|
            0 <= i < pieces(bytes, size).len() ==> 0 < (#[trigger] pieces(bytes, size)[i]).len()
                <= size,
    decreases bytes.len(),
{
    let quiet = |piece: Seq<u8>| quiet_step(piece, InputKind::Bytes);
    let all = pieces(bytes, size).map_values(quiet);
    if bytes.len() == 0 {
        assert(all.len() == 0);
        assert(written(all) =~= bytes);
    } else if bytes.len() <= size {
        assert(all.skip(1).len() == 0);
        assert(written(all.skip(1)) =~= Seq::<u8>::empty());
        assert(written(all) =~= bytes);
    } else {
        let rest = bytes.skip(size as int);
        law_pieces(rest, size);
        let list = pieces(bytes, size);
        assert(list == seq![bytes.take(size as int)] + pieces(rest, size));
        assert(all.skip(1) =~= pieces(rest, size).map_values(quiet));
        assert(written(all) =~= bytes);
        assert forall|i: int| 0 <= i < list.len() implies 0 < (#[trigger] list[i]).len()
            <= size by {
            if i > 0 {
                assert(list[i] == pieces(rest, size)[i - 1]);
            }
        }
    }
}

proof fn lemma_written_push(steps: Seq<StepView>, last: StepView)
    ensures
        written(steps.push(last)) == written(steps) + last.bytes,
    decreases steps.len(),
{
    let all = steps.push(last);
    if steps.len() == 0 {
        assert(all.skip(1).len() == 0);
        assert(written(all.skip(1)) =~= Seq::<u8>::empty());
        assert(written(all) =~= written(steps) + last.bytes);
    } else {
        lemma_written_push(steps.skip(1), last);
        assert(all.skip(1) =~= steps.skip(1).push(last));
        assert(written(all) =~= written(steps) + last.bytes);
    }
}

/// Inserting a text writes exactly what one paste of it sends. The paste is
/// bracketed only if the text has more than one line and the child asked for
/// it.
pub proof fn law_insert_is_a_paste(
    text: Seq<char>,
    chunk_size: usize,
    config: InputConfig,
    modes: TerminalModes,
)
    ensures
        written(insert_steps(text, chunk_size, config, modes)) == paste_bytes(
            encode_utf8(text),
            config,
            TerminalModes {
                bracketed_paste: modes.bracketed_paste && multiline(text),
                ..modes
            },
        ),
{
    let steps = insert_steps(text, chunk_size, config, modes);
    if multiline(text) && modes.bracketed_paste {
        assert(steps.skip(1).len() == 0);
        assert(written(steps.skip(1)) =~= Seq::<u8>::empty());
        assert(written(steps) =~= steps[0].bytes);
    } else {
        let bytes = paste_bytes(
            encode_utf8(text),
            config,
            TerminalModes { bracketed_paste: false, ..modes },
        );
        law_pieces(
            bytes,
            if chunk_size == 0 {
                1
            } else {
                chunk_size as nat
            },
        );
    }
}

/// Submitting a text writes what inserting it writes, then the Enter key, and
/// only that last write submits.
pub proof fn law_submit_comes_last(
    text: String,
    transaction: InputTransaction,
    config: InputConfig,
    modes: TerminalModes,
)
    requires
        transaction.intent == InputIntent::SubmitText(text),
    ensures
        ({
            let steps = planned(transaction, config, modes);
            &&& steps.len() > 0
            &&& steps.last().submits
            &&& forall|i: int| 0 <= i < steps.len() - 1 ==> !(#[trigger] steps[i]).submits
            &&& written(steps) == written(
                insert_steps(text@, transaction.chunk_size, config, modes),
            ) + key_bytes(enter_press(), config, modes)
        }),
{
    lemma_written_push(
        insert_steps(text@, transaction.chunk_size, config, modes),
        submit_step(config, modes),
    );
}

/// A text is written in writes that submit nothing. Those of a text that is
/// typed are as small as asked for, a byte at least; a text of several lines
/// goes out whole as a paste where the child wants pastes bracketed.
pub proof fn law_text_is_typed_in_chunks(
    text: Seq<char>,
    chunk_size: usize,
    config: InputConfig,
    modes: TerminalModes,
)
    ensures
        ({
            let steps = insert_steps(text, chunk_size, config, modes);
            let pasted = modes.bracketed_paste && exists|i: int|
                0 <= i < text.len() && (#[trigger] text[i] == '\n' || text[i] == '\r');
            &&& forall|i: int|
                0 <= i < steps.len() ==> {
                    &&& !(#[trigger] steps[i]).submits
                    &&& steps[i].input_kind == if pasted {
                        InputKind::Paste
                    } else {
                        InputKind::Bytes
                    }
                    &&& !pasted ==> 0 < steps[i].bytes.len() <= (if chunk_size == 0 {
                        1
                    } else {
                        chunk_size as int
                    })
                }
            &&& pasted ==> steps.len() == 1
        }),
{
    let pasted = modes.bracketed_paste && multiline(text);
    if exists|i: int| 0 <= i < text.len() && (#[trigger] text[i] == '\n' || text[i] == '\r') {
        let i = choose|i: int|
            0 <= i < text.len() && (#[trigger] text[i] == '\n' || text[i] == '\r');
        assert(text.contains(text[i]));
    }
    if !pasted {
        let bytes = paste_bytes(
            encode_utf8(text),
            config,
            TerminalModes { bracketed_paste: false, ..modes },
        );
        law_pieces(
            bytes,
            if chunk_size == 0 {
                1
            } else {
                chunk_size as nat
            },
        );
    }
}

/// What the intents of a transaction write: an interrupt Ctrl-C, clearing the
/// line Ctrl-U, raw bytes themselves, and a key what the key sends. None of
/// them submits.
pub proof fn law_intents_are_written(
    transaction: InputTransaction,
    config: InputConfig,
    modes: TerminalModes,
)
    ensures
        ({
            let steps = planned(transaction, config, modes);
            &&& transaction.intent is Interrupt ==> steps == seq![
                StepView { bytes: seq![0x03u8], input_kind: InputKind::Key, submits: false },
            ]
            &&& transaction.intent is ClearInput ==> steps == seq![
                StepView { bytes: seq![0x15u8], input_kind: InputKind::Key, submits: false },
            ]
            &&& transaction.intent matches InputIntent::RawBytes(bytes) ==> steps == seq![
                StepView { bytes: bytes@, input_kind: InputKind::Bytes, submits: false },
            ]
            &&& transaction.intent matches InputIntent::KeyChord(key) ==> steps == seq![
                StepView {
                    bytes: key_bytes(key, config, modes),
                    input_kind: InputKind::Key,
                    submits: false,
                },
            ]
            &&& transaction.intent matches InputIntent::InsertText(text) ==> written(steps)
                == written(insert_steps(text@, transaction.chunk_size, config, modes)) && (forall|
                i: int,
            |
                0 <= i < steps.len() ==> !(#[trigger] steps[i]).submits)
        }),
{
}

fn has_line_end(text: &str) -> (found: bool)
    ensures
        found == multiline(text@),
{
    let n = text.unicode_len();
    let mut i: usize = 0;
    while i < n
        invariant
            i <= n,
            n == text@.len(),
            forall|k: int| 0 <= k < i ==> (#[trigger] text@[k]) != '\n' && text@[k] != '\r',
        decreases n - i,
    {
        let c = text.get_char(i);
        if c == '\n' || c == '\r' {
            assert(text@[i as int] == c);
            return true;
        }
        i = i + 1;
    }
    false
}

proof fn lemma_next_piece(bytes: Seq<u8>, at: int, size: nat)
    requires
        0 <= at < bytes.len(),
        size > 0,
    ensures
        ({
            let end = if bytes.len() - at <= size {
                bytes.len() as int
            } else {
                at + size
            };
            pieces(bytes.skip(at), size) == seq![bytes.subrange(at, end)] + pieces(
                bytes.skip(end),
                size,
            )
        }),
{
    let rest = bytes.skip(at);
    if bytes.len() - at <= size {
        assert(bytes.subrange(at, bytes.len() as int) =~= rest);
        assert(bytes.skip(bytes.len() as int).len() == 0);
        assert(pieces(rest, size) =~= seq![rest] + pieces(bytes.skip(bytes.len() as int), size));
    } else {
        assert(rest.take(size as int) =~= bytes.subrange(at, at + size));
        assert(rest.skip(size as int) =~= bytes.skip(at + size));
    }
}

fn push_chunks(steps: &mut Vec<InputWriteStep>, bytes: &[u8], size: usize)
    requires
        size > 0,
    ensures
        step_views(final(steps)@) == step_views(old(steps)@) + pieces(
            bytes@,
            size as nat,
        ).map_values(|piece: Seq<u8>| quiet_step(piece, InputKind::Bytes)),
{
    let ghost quiet = |piece: Seq<u8>| quiet_step(piece, InputKind::Bytes);
    let mut at: usize = 0;
    proof {
        assert(bytes@.skip(0) =~= bytes@);
    }
    while at < bytes.len()
        invariant
            size > 0,
            at <= bytes@.len(),
            quiet == |piece: Seq<u8>| quiet_step(piece, InputKind::Bytes),
            step_views(steps@) + pieces(bytes@.skip(at as int), size as nat).map_values(quiet)
                == step_views(old(steps)@) + pieces(bytes@, size as nat).map_values(quiet),
        decreases bytes@.len() - at,
    {
        let end = if bytes.len() - at <= size {
            bytes.len()
        } else {
            at + size
        };
        let chunk = slice_to_vec(slice_subrange(bytes, at, end));
        let ghost before = step_views(steps@);
        steps.push(
            InputWriteStep { bytes: chunk, input_kind: InputKind::Bytes, submits: false },
        );
        proof {
            lemma_next_piece(bytes@, at as int, size as nat);
            let piece = bytes@.subrange(at as int, end as int);
            let later = pieces(bytes@.skip(end as int), size as nat);
            assert(step_views(steps@) =~= before.push(quiet(piece)));
            assert((seq![piece] + later).map_values(quiet) =~= seq![quiet(piece)]
                + later.map_values(quiet));
            assert(before + (seq![quiet(piece)] + later.map_values(quiet)) =~= before.push(
                quiet(piece),
            ) + later.map_values(quiet));
        }
        at = end;
    }
    proof {
        assert(bytes@.skip(at as int).len() == 0);
        assert(pieces(bytes@.skip(at as int), size as nat).map_values(quiet) =~= Seq::empty());
        assert(step_views(steps@) + Seq::<StepView>::empty() =~= step_views(steps@));
    }
}

fn one_step(bytes: Vec<u8>, input_kind: InputKind) -> (steps: Vec<InputWriteStep>)
    ensures
        step_views(steps@) == seq![quiet_step(bytes@, input_kind)],
{
    let mut steps: Vec<InputWriteStep> = Vec::new();
    steps.push(InputWriteStep { bytes, input_kind, submits: false });
    assert(step_views(steps@) =~= seq![quiet_step(bytes@, input_kind)]);
    steps
}

fn key_press_steps(encoder: &XtermEncoder, key: &KeyInput, modes: &TerminalModes) -> (r: Result<
    Vec<InputWriteStep>,
    PaneError,
>)
    ensures
        r matches Ok(steps) && step_views(steps@) == key_steps(*key, encoder.config, *modes),
{
    match encoder.encode_key(key, modes) {
        Ok(bytes) => Ok(one_step(bytes, InputKind::Key)),
        Err(error) => Err(error),
    }
}

/// Plans the writes that insert a text and, where asked, submit it.
pub fn text_input_steps(
    text: &str,
    submit: bool,
    chunk_size: usize,
    encoder: &XtermEncoder,
    modes: &TerminalModes,
) -> (r: Result<Vec<InputWriteStep>, PaneError>)
    ensures
        r matches Ok(steps) && step_views(steps@) == if submit {
            insert_steps(text@, chunk_size, encoder.config, *modes).push(
                submit_step(encoder.config, *modes),
            )
        } else {
            insert_steps(text@, chunk_size, encoder.config, *modes)
        },
{
    let mut steps: Vec<InputWriteStep> = Vec::new();
    assert(step_views(steps@) =~= Seq::<StepView>::empty());
    if has_line_end(text) && modes.bracketed_paste {
        let bytes = encoder.encode_paste(text, modes);
        steps.push(InputWriteStep { bytes, input_kind: InputKind::Paste, submits: false });
        assert(step_views(steps@) =~= insert_steps(text@, chunk_size, encoder.config, *modes));
    } else {
        let mut raw_typing_modes = *modes;
        raw_typing_modes.bracketed_paste = false;
        let bytes = encoder.encode_paste(text, &raw_typing_modes);
        let size = if chunk_size == 0 {
            1
        } else {
            chunk_size
        };
        push_chunks(&mut steps, bytes.as_slice(), size);
        assert(step_views(steps@) =~= insert_steps(text@, chunk_size, encoder.config, *modes));
    }
    if submit {
        let ghost before = step_views(steps@);
        match encoder.encode_key(&enter_key(), modes) {
            Ok(bytes) => {
                steps.push(InputWriteStep { bytes, input_kind: InputKind::Key, submits: true });
                assert(step_views(steps@) =~= before.push(submit_step(encoder.config, *modes)));
            },
            Err(error) => {
                return Err(error);
            },
        }
    }
    Ok(steps)
}

/// Plans the writes of a transaction.
pub fn plan_input_transaction(
    transaction: &InputTransaction,
    config: InputConfig,
    modes: TerminalModes,
) -> (r: Result<Vec<InputWriteStep>, PaneError>)
    ensures
        r matches Ok(steps) && step_views(steps@) == planned(*transaction, config, modes),
{
    let encoder = XtermEncoder::new(config);
    match &transaction.intent {
        InputIntent::InsertText(text) => text_input_steps(
            text.as_str(),
            false,
            transaction.chunk_size,
            &encoder,
            &modes,
        ),
        InputIntent::SubmitText(text) => text_input_steps(
            text.as_str(),
            true,
            transaction.chunk_size,
            &encoder,
            &modes,
        ),
        InputIntent::KeyChord(key) => key_press_steps(&encoder, key, &modes),
        InputIntent::Interrupt => key_press_steps(&encoder, &control_key('c'), &modes),
        InputIntent::ClearInput => key_press_steps(&encoder, &control_key('u'), &modes),
        InputIntent::RawBytes(bytes) => Ok(
            one_step(slice_to_vec(bytes.as_slice()), InputKind::Bytes),
        ),
    }
}

/// The operation and the message under which a failed write is reported.
pub open spec fn write_error_parts(error: ErrorView) -> (IoOperation, Seq<char>) {
    match error {
        ErrorView::Io { operation, message } => (operation, message),
        _ => (IoOperation::Write, error.sentence()),
    }
}

/// A failure of the writer is reported with the operation that failed and its
/// own message, any other as a failed write, with the sentence of the error.
pub proof fn law_write_errors_are_told(operation: IoOperation, message: Seq<char>, error: ErrorView)
    ensures
        write_error_parts(ErrorView::Io { operation, message }) == (operation, message),
        !(error is Io) ==> write_error_parts(error) == (IoOperation::Write, error.sentence()),
{
}

/// Returns the operation and the message under which a failed write is
/// reported.
pub fn transaction_error_parts(error: &PaneError) -> (parts: (IoOperation, String))
    ensures
        (parts.0, parts.1@) == write_error_parts(error@),
{
    match error {
        PaneError::Io { operation, message } => (*operation, message.clone()),
        _ => (IoOperation::Write, error.to_string()),
    }
}

/// The text of a row's cells.
pub open spec fn cells_text(cells: Seq<CellView>) -> Seq<char>
    decreases cells.len(),
{
    if cells.len() == 0 {
        seq![]
    } else {
        cells_text(cells.drop_last()) + cells.last().text
    }
}

/// The text of some rows; a row that does not wrap into the next ends with a
/// line feed.
pub open spec fn rows_text(rows: Seq<RowView>) -> Seq<char>
    decreases rows.len(),
{
    if rows.len() == 0 {
        seq![]
    } else {
        let row = rows.last();
        rows_text(rows.drop_last()) + cells_text(row.cells) + if row.wrapped {
            seq![]
        } else {
            seq!['\n']
        }
    }
}

/// The text of some scrollback lines, each with a line feed.
pub open spec fn lines_text(lines: Seq<LineView>) -> Seq<char>
    decreases lines.len(),
{
    if lines.len() == 0 {
        seq![]
    } else {
        (lines_text(lines.drop_last()) + lines.last().text).push('\n')
    }
}

/// The cells of some rows, one after the other.
pub open spec fn row_cells(rows: Seq<RowView>) -> Seq<CellView>
    decreases rows.len(),
{
    if rows.len() == 0 {
        seq![]
    } else {
        row_cells(rows.drop_last()) + rows.last().cells
    }
}

/// The text of cells is their texts one after the other.
pub proof fn law_cells_text(first: Seq<CellView>, second: Seq<CellView>, cell: CellView)
    ensures
        cells_text(seq![]).len() == 0,
        cells_text(seq![cell]) == cell.text,
        cells_text(first + second) == cells_text(first) + cells_text(second),
    decreases second.len(),
{
    assert(cells_text(seq![cell].drop_last()).len() == 0);
    assert(cells_text(seq![cell]) =~= cell.text);
    if second.len() == 0 {
        assert(first + second =~= first);
        assert(cells_text(first) + cells_text(second) =~= cells_text(first));
    } else {
        law_cells_text(first, second.drop_last(), cell);
        assert((first + second).drop_last() =~= first + second.drop_last());
        assert(cells_text(first + second) =~= cells_text(first) + cells_text(second));
    }
}

/// The text of rows is their texts one after the other. A row that does not
/// wrap ends with a line feed; a row that wraps goes on in the next.
pub proof fn law_rows_text(first: Seq<RowView>, second: Seq<RowView>, row: RowView)
    ensures
        rows_text(seq![]).len() == 0,
        row.wrapped ==> rows_text(seq![row]) == cells_text(row.cells),
        !row.wrapped ==> rows_text(seq![row]) == cells_text(row.cells).push('\n'),
        rows_text(first + second) == rows_text(first) + rows_text(second),
    decreases second.len(),
{
    assert(rows_text(seq![row].drop_last()).len() == 0);
    assert(rows_text(seq![row]) =~= cells_text(row.cells) + if row.wrapped {
        seq![]
    } else {
        seq!['\n']
    });
    if second.len() == 0 {
        assert(first + second =~= first);
        assert(rows_text(first) + rows_text(second) =~= rows_text(first));
    } else {
        law_rows_text(first, second.drop_last(), row);
        assert((first + second).drop_last() =~= first + second.drop_last());
        assert(rows_text(first + second) =~= rows_text(first) + rows_text(second));
    }
}

/// The text of scrollback lines is their texts, each with a line feed behind.
pub proof fn law_lines_text(first: Seq<LineView>, second: Seq<LineView>, line: LineView)
    ensures
        lines_text(seq![]).len() == 0,
        lines_text(seq![line]) == line.text.push('\n'),
        lines_text(first + second) == lines_text(first) + lines_text(second),
    decreases second.len(),
{
    assert(lines_text(seq![line].drop_last()).len() == 0);
    assert(lines_text(seq![line]) =~= line.text.push('\n'));
    if second.len() == 0 {
        assert(first + second =~= first);
        assert(lines_text(first) + lines_text(second) =~= lines_text(first));
    } else {
        law_lines_text(first, second.drop_last(), line);
        assert((first + second).drop_last() =~= first + second.drop_last());
        assert(lines_text(first + second) =~= lines_text(first) + lines_text(second));
    }
}

/// Wrapped rows are joined: the text of rows that all wrap into the next, but
/// for the last, is the text of all their cells, with a line feed behind unless
/// the last one wraps too.
pub proof fn law_wrapped_rows_are_joined(rows: Seq<RowView>)
    requires
        rows.len() > 0,
        forall|i: int| 0 <= i < rows.len() - 1 ==> (#[trigger] rows[i]).wrapped,
    ensures
        rows_text(rows) == (if rows.last().wrapped {
            cells_text(row_cells(rows))
        } else {
            cells_text(row_cells(rows)).push('\n')
        }),
    decreases rows.len(),
{
    let before = rows.drop_last();
    let row = rows.last();
    law_cells_text(row_cells(before), row.cells, arbitrary());
    law_rows_text(before, seq![row], row);
    assert(before + seq![row] =~= rows);
    if before.len() == 0 {
        assert(rows_text(rows) =~= rows_text(seq![row]));
        assert(row_cells(rows) =~= row.cells);
    } else {
        law_wrapped_rows_are_joined(before);
        assert(before.last() == rows[rows.len() - 2]);
        assert(rows_text(rows) =~= cells_text(row_cells(before)) + rows_text(seq![row]));
        if !row.wrapped {
            assert(cells_text(row_cells(before)) + cells_text(row.cells).push('\n')
                =~= cells_text(row_cells(rows)).push('\n'));
        }
    }
}

proof fn lemma_utf8_concat(a: Seq<char>, b: Seq<char>)
    ensures
        encode_utf8(a + b) == encode_utf8(a) + encode_utf8(b),
    decreases a.len(),
{
    if a.len() == 0 {
        assert(a + b =~= b);
        assert(encode_utf8(a) + encode_utf8(b) =~= encode_utf8(b));
    } else {
        assert((a + b).drop_first() =~= a.drop_first() + b);
        lemma_utf8_concat(a.drop_first(), b);
        assert(encode_utf8(a + b) =~= encode_utf8(a) + encode_utf8(b));
    }
}

proof fn lemma_found_between(
    awaited: InputVerification,
    before: Seq<char>,
    needle: Seq<char>,
    after: Seq<char>,
)
    requires
        awaited matches InputVerification::EchoContains { needle: wanted, .. } && wanted@ == needle,
    ensures
        awaited.accepts(encode_utf8(before + needle + after)),
{
    lemma_utf8_concat(before, needle);
    lemma_utf8_concat(before + needle, after);
    law_needles_are_found(encode_utf8(needle), encode_utf8(before + needle + after));
}

proof fn lemma_regroup(
    history: Seq<char>,
    above: Seq<char>,
    lead: Seq<char>,
    needle: Seq<char>,
    trail: Seq<char>,
    end: Seq<char>,
    below: Seq<char>,
)
    ensures
        history + ((above + ((lead + needle + trail) + end)) + below) == (history + above + lead)
            + needle + (trail + end + below),
{
    assert(history + ((above + ((lead + needle + trail) + end)) + below) =~= (history + above
        + lead) + needle + (trail + end + below));
}

/// An echo is seen although the screen breaks it: a text that stands in rows
/// each of which wraps into the next is found in the text of the pane, whatever
/// stands before and behind those rows.
pub proof fn law_wrapped_echoes_are_seen(
    awaited: InputVerification,
    history: Seq<LineView>,
    above: Seq<RowView>,
    rows: Seq<RowView>,
    below: Seq<RowView>,
    lead: Seq<char>,
    trail: Seq<char>,
)
    requires
        rows.len() > 0,
        forall|i: int| 0 <= i < rows.len() - 1 ==> (#[trigger] rows[i]).wrapped,
        awaited matches InputVerification::EchoContains { needle, .. } && cells_text(
            row_cells(rows),
        ) == lead + needle@ + trail,
    ensures
        awaited.accepts(encode_utf8(lines_text(history) + rows_text(above + rows + below))),
{
    let needle = awaited->needle@;
    law_wrapped_rows_are_joined(rows);
    law_rows_text(above, rows, arbitrary());
    law_rows_text(above + rows, below, arbitrary());
    let end = if rows.last().wrapped {
        seq![]
    } else {
        seq!['\n']
    };
    assert(rows_text(rows) =~= (lead + needle + trail) + end);
    lemma_regroup(
        lines_text(history),
        rows_text(above),
        lead,
        needle,
        trail,
        end,
        rows_text(below),
    );
    lemma_found_between(
        awaited,
        lines_text(history) + rows_text(above) + lead,
        needle,
        trail + end + rows_text(below),
    );
}

/// What stands in the scrollback is seen too: a text in a line of it is found in
/// the text of the pane.
pub proof fn law_scrolled_echoes_are_seen(
    awaited: InputVerification,
    older: Seq<LineView>,
    line: LineView,
    newer: Seq<LineView>,
    rows: Seq<RowView>,
    lead: Seq<char>,
    trail: Seq<char>,
)
    requires
        awaited matches InputVerification::EchoContains { needle, .. } && line.text == lead
            + needle@ + trail,
    ensures
        awaited.accepts(encode_utf8(lines_text(older.push(line) + newer) + rows_text(rows))),
{
    let needle = awaited->needle@;
    law_lines_text(older, seq![line], line);
    law_lines_text(older.push(line), newer, line);
    assert(older + seq![line] =~= older.push(line));
    let before = lines_text(older) + lead;
    let after = trail + seq!['\n'] + lines_text(newer) + rows_text(rows);
    assert(lines_text(older.push(line) + newer) + rows_text(rows) =~= before + needle + after);
    lemma_found_between(awaited, before, needle, after);
}

fn push_text(out: &mut String, text: &Cow<'_, str>)
    ensures
        final(out)@ == old(out)@ + text@,
{
    match text {
        Cow::Borrowed(s) => out.append(s),
        Cow::Owned(s) => out.append(s.as_str()),
    }
}

fn push_surface_row_text(out: &mut String, row: &SurfaceRow<'_>)
    ensures
        final(out)@ == old(out)@ + cells_text(row@.cells),
{
    let mut i: usize = 0;
    proof {
        assert(row@.cells.take(0) =~= Seq::empty());
        assert(out@ + Seq::<char>::empty() =~= out@);
    }
    while i < row.cells.len()
        invariant
            i <= row.cells@.len(),
            row@.cells == row.cells@.map_values(|c: SurfaceCell| c@),
            out@ == old(out)@ + cells_text(row@.cells.take(i as int)),
        decreases row.cells@.len() - i,
    {
        push_text(out, &row.cells[i].text);
        proof {
            let more = row@.cells.take(i + 1);
            assert(more.drop_last() =~= row@.cells.take(i as int));
            assert(more.last() == row.cells@[i as int]@);
            assert(out@ =~= old(out)@ + cells_text(more));
        }
        i = i + 1;
    }
    assert(row@.cells.take(i as int) =~= row@.cells);
}

/// Returns the text against which an echo is verified: the scrollback, then
/// the screen.
pub fn verification_text(
    scrollback: &ScrollbackSnapshot<'_>,
    screen: &SurfaceSnapshot<'_>,
) -> (text: String)
    ensures
        text@ == lines_text(scrollback@) + rows_text(screen@.rows),
{
    let mut text = String::new();
    let mut i: usize = 0;
    assert(scrollback@.take(0) =~= Seq::empty());
    while i < scrollback.lines.len()
        invariant
            i <= scrollback.lines@.len(),
            scrollback@ == scrollback.lines@.map_values(|l: ScrollbackLine| l@),
            text@ == lines_text(scrollback@.take(i as int)),
        decreases scrollback.lines@.len() - i,
    {
        push_text(&mut text, &scrollback.lines[i].text);
        text.push('\n');
        proof {
            let more = scrollback@.take(i + 1);
            assert(more.drop_last() =~= scrollback@.take(i as int));
            assert(more.last() == scrollback.lines@[i as int]@);
        }
        i = i + 1;
    }
    assert(scrollback@.take(i as int) =~= scrollback@);
    let ghost history = text@;
    let mut j: usize = 0;
    proof {
        assert(screen@.rows.take(0) =~= Seq::empty());
        assert(history + Seq::<char>::empty() =~= history);
    }
    while j < screen.rows.len()
        invariant
            j <= screen.rows@.len(),
            screen@.rows == screen.rows@.map_values(|r: SurfaceRow| r@),
            text@ == history + rows_text(screen@.rows.take(j as int)),
        decreases screen.rows@.len() - j,
    {
        push_surface_row_text(&mut text, &screen.rows[j]);
        if !screen.rows[j].wrapped {
            text.push('\n');
        }
        proof {
            let more = screen@.rows.take(j + 1);
            assert(more.drop_last() =~= screen@.rows.take(j as int));
            assert(more.last() == screen.rows@[j as int]@);
            assert(text@ =~= history + rows_text(more));
        }
        j = j + 1;
    }
    assert(screen@.rows.take(j as int) =~= screen@.rows);
    text
}

} // verus!
