//! The command line of a process, read out of its memory.
//!
//! The basic information of a process holds the address of its environment block.
//! That block holds the address of the process parameters, and those hold the
//! length and the address of the command line.

use vstd::prelude::*;
use crate::bytes::{
    law_bytes_count_from_the_lowest, law_units_are_pairs_of_bytes, le_at, le_units, read_pointer,
    read_u16, read_units, unit_bytes, PointerWidth,
};
use crate::ledger::{closed, opened, run, Dialogue};
use crate::text::text_view;
use crate::utf16::{decode_utf16, utf16_encode, utf16_lossy};

verus! {

/// What to ask the system for next.
#[derive(Clone, Copy, Debug, PartialEq, Eq, Structural)]
pub enum CommandLineStage {
    OpenProcess,
    QueryBasicInformation,
    ReadEnvironmentBlock { address: u64 },
    ReadParameters { address: u64 },
    ReadText { address: u64, bytes: u16 },
    CloseProcess,
    Done,
}

/// The size of the part of the environment block that is read: four flags padded
/// to an address, and four addresses.
pub open spec fn block_size(width: PointerWidth) -> int {
    5 * width.size()
}

/// The address of the process parameters, the last field of that part.
pub open spec fn parameters_address(block: Seq<u8>, width: PointerWidth) -> nat {
    le_at(block, 4 * width.size(), width.size())
}

/// The size of the part of the parameters that is read: sixteen bytes, ten
/// addresses, and two counted strings.
pub open spec fn parameters_size(width: PointerWidth) -> int {
    16 + 14 * width.size()
}

/// The length in bytes of the command line. It opens the second counted string.
pub open spec fn text_length(parameters: Seq<u8>, width: PointerWidth) -> nat {
    le_at(parameters, 16 + 12 * width.size(), 2)
}

/// The address of the command line, the last field of that part.
pub open spec fn text_address(parameters: Seq<u8>, width: PointerWidth) -> nat {
    le_at(parameters, 16 + 13 * width.size(), width.size())
}

/// The dialogue that finds a command line.
pub struct CommandLineProbe {
    pub width: PointerWidth,
    pub stage: CommandLineStage,
    pub text: Option<String>,
}

/// Where the dialogue stands, and what it has found.
pub struct CommandLineView {
    pub width: PointerWidth,
    pub stage: CommandLineStage,
    pub text: Option<Seq<char>>,
}

impl View for CommandLineProbe {
    type V = CommandLineView;

    open spec fn view(&self) -> CommandLineView {
        CommandLineView { width: self.width, stage: self.stage, text: text_view(self.text) }
    }
}

/// An answer of the system.
pub enum CommandLineAnswer {
    /// Whether the process was opened.
    Opened(bool),
    /// The status of the query and the address of the environment block.
    BasicInformation(i32, u64),
    /// What was read, where the read succeeded.
    Memory(Option<Seq<u8>>),
    /// The process was closed.
    Closed,
}

impl CommandLineView {
    /// The start of every dialogue.
    pub open spec fn start(width: PointerWidth) -> Self {
        CommandLineView { width, stage: CommandLineStage::OpenProcess, text: None }
    }

    /// The same findings at another stage.
    pub open spec fn at(self, stage: CommandLineStage) -> Self {
        CommandLineView { stage, ..self }
    }

    /// A process that cannot be opened has no command line.
    pub open spec fn after_opened(self, ok: bool) -> Self {
        if self.stage is OpenProcess {
            self.at(
                if ok {
                    CommandLineStage::QueryBasicInformation
                } else {
                    CommandLineStage::Done
                },
            )
        } else {
            self
        }
    }

    /// A query succeeds with status zero and an address that is not null.
    pub open spec fn after_basic_information(self, status: i32, address: u64) -> Self {
        if self.stage is QueryBasicInformation {
            self.at(
                if status == 0 && address != 0 {
                    CommandLineStage::ReadEnvironmentBlock { address }
                } else {
                    CommandLineStage::CloseProcess
                },
            )
        } else {
            self
        }
    }

    /// A read that fails or comes back short ends the dialogue, and so does a null
    /// address or an empty text.
    pub open spec fn after_memory(self, memory: Option<Seq<u8>>) -> Self {
        let w = self.width;
        match self.stage {
            CommandLineStage::ReadEnvironmentBlock { .. } => match memory {
                Some(b) if b.len() >= block_size(w) && parameters_address(b, w) != 0 => self.at(
                    CommandLineStage::ReadParameters { address: parameters_address(b, w) as u64 },
                ),
                _ => self.at(CommandLineStage::CloseProcess),
            },
            CommandLineStage::ReadParameters { .. } => match memory {
                Some(b) if b.len() >= parameters_size(w) && text_length(b, w) != 0 && text_address(
                    b,
                    w,
                ) != 0 => self.at(
                    CommandLineStage::ReadText {
                        address: text_address(b, w) as u64,
                        bytes: text_length(b, w) as u16,
                    },
                ),
                _ => self.at(CommandLineStage::CloseProcess),
            },
            CommandLineStage::ReadText { bytes, .. } => CommandLineView {
                stage: CommandLineStage::CloseProcess,
                text: match memory {
                    Some(b) if b.len() >= bytes => Some(
                        utf16_lossy(le_units(b, (bytes / 2) as nat)),
                    ),
                    _ => None,
                },
                ..self
            },
            _ => self,
        }
    }

    /// Closing the process ends the dialogue.
    pub open spec fn after_closed(self) -> Self {
        if self.stage is CloseProcess {
            self.at(CommandLineStage::Done)
        } else {
            self
        }
    }
}

impl CommandLineProbe {
    /// Starts the dialogue for a machine with addresses of the given size.
    pub fn new(width: PointerWidth) -> (r: Self)
        ensures
            r@ == CommandLineView::start(width),
    {
        CommandLineProbe { width, stage: CommandLineStage::OpenProcess, text: None }
    }

    /// How many bytes the read at the present stage is for: none where no read is
    /// asked for.
    pub fn bytes_wanted(&self) -> (r: usize)
        ensures
            r == match self.stage {
                CommandLineStage::ReadEnvironmentBlock { .. } => block_size(self.width),
                CommandLineStage::ReadParameters { .. } => parameters_size(self.width),
                CommandLineStage::ReadText { bytes, .. } => bytes as int,
                _ => 0,
            },
    {
        match self.stage {
            CommandLineStage::ReadEnvironmentBlock { .. } => 5 * self.width.bytes(),
            CommandLineStage::ReadParameters { .. } => 16 + 14 * self.width.bytes(),
            CommandLineStage::ReadText { bytes, .. } => bytes as usize,
            _ => 0,
        }
    }

    /// Whether the process was opened.
    pub fn opened(self, ok: bool) -> (r: Self)
        ensures
            r@ == self@.after_opened(ok),
    {
        match self.stage {
            CommandLineStage::OpenProcess => {
                let stage = if ok {
                    CommandLineStage::QueryBasicInformation
                } else {
                    CommandLineStage::Done
                };
                CommandLineProbe { stage, ..self }
            },
            _ => self,
        }
    }

    /// What the query for the basic information brought.
    pub fn basic_information(self, status: i32, address: u64) -> (r: Self)
        ensures
            r@ == self@.after_basic_information(status, address),
    {
        match self.stage {
            CommandLineStage::QueryBasicInformation => {
                let stage = if status == 0 && address != 0 {
                    CommandLineStage::ReadEnvironmentBlock { address }
                } else {
                    CommandLineStage::CloseProcess
                };
                CommandLineProbe { stage, ..self }
            },
            _ => self,
        }
    }

    /// What a read of memory brought: the bytes that were read, or none where the
    /// read failed.
    pub fn memory(self, memory: Option<&[u8]>) -> (r: Self)
        ensures
            r@ == self@.after_memory(
                match memory {
                    Some(b) => Some(b@),
                    None => None,
                },
            ),
    {
        let w = self.width.bytes();
        match self.stage {
            CommandLineStage::ReadEnvironmentBlock { .. } => {
                let mut stage = CommandLineStage::CloseProcess;
                if let Some(b) = memory {
                    if b.len() >= 5 * w {
                        let address = read_pointer(b, 4 * w, self.width);
                        if address != 0 {
                            stage = CommandLineStage::ReadParameters { address };
                        }
                    }
                }
                CommandLineProbe { stage, ..self }
            },
            CommandLineStage::ReadParameters { .. } => {
                let mut stage = CommandLineStage::CloseProcess;
                if let Some(b) = memory {
                    if b.len() >= 16 + 14 * w {
                        let bytes = read_u16(b, 16 + 12 * w);
                        let address = read_pointer(b, 16 + 13 * w, self.width);
                        if bytes != 0 && address != 0 {
                            stage = CommandLineStage::ReadText { address, bytes };
                        }
                    }
                }
                CommandLineProbe { stage, ..self }
            },
            CommandLineStage::ReadText { bytes, .. } => {
                let mut text: Option<String> = None;
                if let Some(b) = memory {
                    if b.len() >= bytes as usize {
                        let units = read_units(b, (bytes / 2) as usize);
                        assert(units@.take(units@.len() as int) =~= units@);
                        text = Some(decode_utf16(units.as_slice(), units.len()));
                    }
                }
                CommandLineProbe { width: self.width, stage: CommandLineStage::CloseProcess, text }
            },
            _ => self,
        }
    }

    /// The process was closed.
    pub fn closed(self) -> (r: Self)
        ensures
            r@ == self@.after_closed(),
    {
        match self.stage {
            CommandLineStage::CloseProcess => CommandLineProbe {
                stage: CommandLineStage::Done,
                ..self
            },
            _ => self,
        }
    }
}

impl Dialogue for CommandLineView {
    type Answer = CommandLineAnswer;

    open spec fn after(self, a: CommandLineAnswer) -> Self {
        match a {
            CommandLineAnswer::Opened(ok) => self.after_opened(ok),
            CommandLineAnswer::BasicInformation(status, address) => self.after_basic_information(
                status,
                address,
            ),
            CommandLineAnswer::Memory(memory) => self.after_memory(memory),
            CommandLineAnswer::Closed => self.after_closed(),
        }
    }

    open spec fn opens(self, a: CommandLineAnswer) -> bool {
        self.stage is OpenProcess && a == CommandLineAnswer::Opened(true)
    }

    open spec fn closes(self, a: CommandLineAnswer) -> bool {
        self.stage is CloseProcess && a is Closed
    }

    open spec fn held(self) -> int {
        if self.stage is OpenProcess || self.stage is Done {
            0
        } else {
            1
        }
    }

    proof fn keeps_count(self, a: CommandLineAnswer) {
    }
}

/// However the system answers, a dialogue that has ended has closed the process if
/// it was opened, and closed nothing else.
pub proof fn law_command_line_closes_what_it_opens(
    width: PointerWidth,
    answers: Seq<CommandLineAnswer>,
)
    ensures
        run(CommandLineView::start(width), answers).stage is Done ==> opened(
            CommandLineView::start(width),
            answers,
        ) == closed(CommandLineView::start(width), answers),
{
    crate::ledger::law_ledger(CommandLineView::start(width), answers);
}

/// The answers of a system in which every step succeeds.
pub open spec fn good_answers(
    address: u64,
    block: Seq<u8>,
    parameters: Seq<u8>,
    text: Seq<u8>,
) -> Seq<CommandLineAnswer> {
    seq![
        CommandLineAnswer::Opened(true),
        CommandLineAnswer::BasicInformation(0, address),
        CommandLineAnswer::Memory(Some(block)),
        CommandLineAnswer::Memory(Some(parameters)),
        CommandLineAnswer::Memory(Some(text)),
        CommandLineAnswer::Closed,
    ]
}

/// Where every step succeeds and the memory of the process holds a text at the end
/// of the chain of addresses, that text is found.
pub proof fn law_command_line_is_found(
    width: PointerWidth,
    address: u64,
    block: Seq<u8>,
    parameters: Seq<u8>,
    line: Seq<char>,
)
    requires
        address != 0,
        block.len() == block_size(width),
        parameters_address(block, width) != 0,
        parameters.len() == parameters_size(width),
        text_length(parameters, width) == 2 * utf16_encode(line).len(),
        text_length(parameters, width) != 0,
        text_address(parameters, width) != 0,
    ensures
        ({
            let end = run(
                CommandLineView::start(width),
                good_answers(address, block, parameters, unit_bytes(utf16_encode(line))),
            );
            end.stage is Done && end.text == Some(line)
        }),
{
    let text = unit_bytes(utf16_encode(line));
    let all = good_answers(address, block, parameters, text);
    reveal_with_fuel(run, 7);
    crate::bytes::lemma_le_two(parameters, 16 + 12 * width.size(), 2);
    assert(text_length(parameters, width) < 65536);
    assert(all.drop_last().last() == all[4]);
    assert(all.drop_last().drop_last().last() == all[3]);
    assert(all.drop_last().drop_last().drop_last().last() == all[2]);
    assert(all.drop_last().drop_last().drop_last().drop_last().last() == all[1]);
    assert(all.drop_last().drop_last().drop_last().drop_last().drop_last().last() == all[0]);
    crate::bytes::law_units_read_back(utf16_encode(line));
    crate::utf16::law_utf16_round_trip(line);
}

/// The number in four bytes or eight from a place on, the lowest byte first.
pub open spec fn address_in(b: Seq<u8>, from: int, width: PointerWidth) -> int {
    let low = b[from] + 0x100 * b[from + 1] + 0x1_0000 * b[from + 2] + 0x100_0000 * b[from + 3];
    if width is Four {
        low
    } else {
        low + 0x1_0000_0000 * (b[from + 4] + 0x100 * b[from + 5] + 0x1_0000 * b[from + 6]
            + 0x100_0000 * b[from + 7])
    }
}

/// Where the parts of a process that lead to its command line have their fields. On a
/// machine with addresses of eight bytes the address of the parameters stands at 32
/// of 40 bytes, and the length and the address of the command line at 112 and 120 of
/// 128 bytes. With addresses of four bytes it is 16 of 20, and 64 and 68 of 72.
pub proof fn law_layout_of_the_process(block: Seq<u8>, parameters: Seq<u8>, width: PointerWidth)
    ensures
        block_size(width) == if width is Eight {
            40int
        } else {
            20
        },
        parameters_size(width) == if width is Eight {
            128int
        } else {
            72
        },
        block.len() >= block_size(width) ==> parameters_address(block, width) == address_in(
            block,
            if width is Eight {
                32
            } else {
                16
            },
            width,
        ),
        parameters.len() >= parameters_size(width) ==> text_length(parameters, width)
            == if width is Eight {
            parameters[112] + 0x100 * parameters[113]
        } else {
            parameters[64] + 0x100 * parameters[65]
        },
        parameters.len() >= parameters_size(width) ==> text_address(parameters, width)
            == address_in(
            parameters,
            if width is Eight {
                120
            } else {
                68
            },
            width,
        ),
{
    if width is Eight {
        law_bytes_count_from_the_lowest(block, 32);
        law_bytes_count_from_the_lowest(parameters, 112);
        law_bytes_count_from_the_lowest(parameters, 120);
    } else {
        law_bytes_count_from_the_lowest(block, 16);
        law_bytes_count_from_the_lowest(parameters, 64);
        law_bytes_count_from_the_lowest(parameters, 68);
    }
}

/// Each read is for what the one before it has named: the block at the address that
/// the query gave, the parameters at the address in the block, and as many bytes of
/// text as the parameters say, at the address in the parameters.
pub proof fn law_addresses_are_followed(
    width: PointerWidth,
    address: u64,
    block: Seq<u8>,
    parameters: Seq<u8>,
)
    requires
        address != 0,
        block.len() >= block_size(width),
        address_in(block, 4 * width.size(), width) != 0,
        parameters.len() >= parameters_size(width),
        parameters[16 + 12 * width.size()] != 0 || parameters[17 + 12 * width.size()] != 0,
        address_in(parameters, 16 + 13 * width.size(), width) != 0,
    ensures
        ({
            let asked = CommandLineView::start(width).after(CommandLineAnswer::Opened(true)).after(
                CommandLineAnswer::BasicInformation(0, address),
            );
            let led = asked.after(CommandLineAnswer::Memory(Some(block)));
            let found = led.after(CommandLineAnswer::Memory(Some(parameters)));
            &&& asked.stage == CommandLineStage::ReadEnvironmentBlock { address }
            &&& led.stage matches CommandLineStage::ReadParameters { address: a }
            &&& a == address_in(block, 4 * width.size(), width)
            &&& found.stage matches CommandLineStage::ReadText { address: t, bytes }
            &&& t == address_in(parameters, 16 + 13 * width.size(), width)
            &&& bytes == parameters[16 + 12 * width.size()] + 0x100 * parameters[17 + 12
                * width.size()]
            &&& found.text is None
        }),
{
    law_layout_of_the_process(block, parameters, width);
}

/// What stands at the end of the chain is reported in full: every pair of bytes is a
/// unit, whether they are text or not, and an odd byte at the end is dropped. Bytes
/// beyond the length are not looked at.
pub proof fn law_all_units_are_reported(
    width: PointerWidth,
    address: u64,
    bytes: u16,
    memory: Seq<u8>,
    units: Seq<u16>,
)
    requires
        memory.len() >= bytes,
        units.len() == bytes as int / 2,
        forall|i: int|
            0 <= i < units.len() ==> #[trigger] units[i] == memory[2 * i] + 0x100 * memory[2 * i
                + 1],
    ensures
        ({
            let end = (CommandLineView {
                width,
                stage: CommandLineStage::ReadText { address, bytes },
                text: None,
            }).after(CommandLineAnswer::Memory(Some(memory)));
            end.stage is CloseProcess && end.text == Some(utf16_lossy(units))
        }),
{
    let n = (bytes / 2) as nat;
    law_units_are_pairs_of_bytes(memory, n);
    assert forall|i: int| 0 <= i < units.len() implies le_units(memory, n)[i] == units[i] by {
        assert(units[i] == memory[2 * i] + 0x100 * memory[2 * i + 1]);
    }
    assert(le_units(memory, n) =~= units);
}

/// A command line of any length that the parameters can hold is found whole, with
/// addresses of eight bytes and of four: the length stands in two bytes, the lower
/// one first.
pub proof fn law_command_line_is_found_whole(
    width: PointerWidth,
    address: u64,
    block: Seq<u8>,
    parameters: Seq<u8>,
    line: Seq<char>,
    beyond: Seq<u8>,
)
    requires
        address != 0,
        block.len() == 5 * width.size(),
        address_in(block, 4 * width.size(), width) != 0,
        parameters.len() == 16 + 14 * width.size(),
        0 < 2 * utf16_encode(line).len() < 0x1_0000,
        parameters[16 + 12 * width.size()] == 2 * utf16_encode(line).len() % 0x100,
        parameters[17 + 12 * width.size()] == 2 * utf16_encode(line).len() / 0x100,
        address_in(parameters, 16 + 13 * width.size(), width) != 0,
    ensures
        ({
            let end = run(
                CommandLineView::start(width),
                good_answers(address, block, parameters, unit_bytes(utf16_encode(line)) + beyond),
            );
            end.stage is Done && end.text == Some(line)
        }),
{
    let units = utf16_encode(line);
    let text = unit_bytes(units) + beyond;
    let all = good_answers(address, block, parameters, text);
    law_layout_of_the_process(block, parameters, width);
    law_addresses_are_followed(width, address, block, parameters);
    reveal_with_fuel(run, 7);
    assert(all.drop_last().last() == all[4]);
    assert(all.drop_last().drop_last().last() == all[3]);
    assert(all.drop_last().drop_last().drop_last().last() == all[2]);
    assert(all.drop_last().drop_last().drop_last().drop_last().last() == all[1]);
    assert(all.drop_last().drop_last().drop_last().drop_last().drop_last().last() == all[0]);
    assert forall|i: int| 0 <= i < units.len() implies #[trigger] units[i] == text[2 * i] + 0x100
        * text[2 * i + 1] by {
        assert(text[2 * i] == (units[i] % 256) as u8);
        assert(text[2 * i + 1] == (units[i] / 256) as u8);
    }
    law_all_units_are_reported(
        width,
        text_address(parameters, width) as u64,
        (2 * units.len()) as u16,
        text,
        units,
    );
    crate::utf16::law_utf16_round_trip(line);
}

/// A step that brings nothing ends the dialogue without a text, and whatever is open
/// is closed: a query with a status other than zero or a null address, a read that
/// fails or comes back short, a null address in the memory, a text without length.
pub proof fn law_command_line_gives_up(v: CommandLineView, memory: Seq<u8>)
    ensures
        CommandLineView::start(v.width).after(CommandLineAnswer::Opened(false)) == (
        CommandLineView { width: v.width, stage: CommandLineStage::Done, text: None }),
        v.stage is QueryBasicInformation ==> forall|status: i32, address: u64|
            status != 0 || address == 0 ==> #[trigger] v.after(
                CommandLineAnswer::BasicInformation(status, address),
            ) == v.at(CommandLineStage::CloseProcess),
        v.stage is ReadEnvironmentBlock || v.stage is ReadParameters ==> v.after(
            CommandLineAnswer::Memory(None),
        ) == v.at(CommandLineStage::CloseProcess),
        v.stage is ReadText ==> v.after(CommandLineAnswer::Memory(None)).stage is CloseProcess
            && v.after(CommandLineAnswer::Memory(None)).text is None,
        v.stage is ReadEnvironmentBlock && (memory.len() < 5 * v.width.size() || address_in(
            memory,
            4 * v.width.size(),
            v.width,
        ) == 0) ==> v.after(CommandLineAnswer::Memory(Some(memory))) == v.at(
            CommandLineStage::CloseProcess,
        ),
        v.stage is ReadParameters && (memory.len() < 16 + 14 * v.width.size() || (memory[16 + 12
            * v.width.size()] == 0 && memory[17 + 12 * v.width.size()] == 0) || address_in(
            memory,
            16 + 13 * v.width.size(),
            v.width,
        ) == 0) ==> v.after(CommandLineAnswer::Memory(Some(memory))) == v.at(
            CommandLineStage::CloseProcess,
        ),
        v.stage matches CommandLineStage::ReadText { bytes, .. } ==> (memory.len() < bytes
            ==> v.after(CommandLineAnswer::Memory(Some(memory))).stage is CloseProcess && v.after(
            CommandLineAnswer::Memory(Some(memory)),
        ).text is None),
{
    law_layout_of_the_process(memory, memory, v.width);
}

/// The view of a dialogue shows its stage and the text that it has found.
pub proof fn law_command_line_view_is_faithful(p: CommandLineProbe)
    ensures
        p@.width == p.width,
        p@.stage == p.stage,
        p.text matches Some(text) ==> p@.text == Some(text@),
        p.text is None ==> p@.text is None,
{
}

} // verus!
