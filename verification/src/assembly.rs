//! The internal representation of the emitted assembly program: an
//! append-only data section and text section, stringified once at the end.

use vstd::prelude::*;

verus! {

/// Mathematical model of a [`DataSectionItem`].
#[verifier::ext_equal]
pub enum DataItemV {
    Data { name: Seq<char>, size: Seq<char>, values: Seq<char> },
    DefineMacro { name: Seq<char>, replacement: Seq<char> },
    StrlenMacro { name: Seq<char>, text: Seq<char> },
}

/// Mathematical model of a [`TextSectionItem`].
#[verifier::ext_equal]
pub enum TextItemV {
    Label(Seq<char>),
    Instruction(Seq<char>),
}

/// Mathematical model of an [`Asm`].
#[verifier::ext_equal]
pub struct AsmV {
    pub data: Seq<DataItemV>,
    pub text: Seq<TextItemV>,
}

/// One entry of the data section: a named datum, a `%define` macro, or a
/// `%strlen` macro.
#[derive(Debug)]
pub enum DataSectionItem {
    Data { name: String, size: String, values: String },
    DefineMacro { name: String, replacement: String },
    StrlenMacro { name: String, text: String },
}

impl View for DataSectionItem {
    type V = DataItemV;

    open spec fn view(&self) -> DataItemV {
        match self {
            DataSectionItem::Data { name, size, values } => DataItemV::Data {
                name: name@,
                size: size@,
                values: values@,
            },
            DataSectionItem::DefineMacro { name, replacement } => DataItemV::DefineMacro {
                name: name@,
                replacement: replacement@,
            },
            DataSectionItem::StrlenMacro { name, text } => DataItemV::StrlenMacro {
                name: name@,
                text: text@,
            },
        }
    }
}

/// The views of a sequence of data section items.
pub open spec fn data_items_view(s: Seq<DataSectionItem>) -> Seq<DataItemV> {
    s.map_values(|x: DataSectionItem| x@)
}

/// One entry of the text section: a label or an instruction.
#[derive(Debug)]
pub enum TextSectionItem {
    Label(String),
    Instruction(String),
}

impl View for TextSectionItem {
    type V = TextItemV;

    open spec fn view(&self) -> TextItemV {
        match self {
            TextSectionItem::Label(name) => TextItemV::Label(name@),
            TextSectionItem::Instruction(inst) => TextItemV::Instruction(inst@),
        }
    }
}

/// The views of a sequence of text section items.
pub open spec fn text_items_view(s: Seq<TextSectionItem>) -> Seq<TextItemV> {
    s.map_values(|x: TextSectionItem| x@)
}

/// The data section being accumulated.
#[derive(Debug)]
pub struct DataSection {
    items: Vec<DataSectionItem>,
}

impl View for DataSection {
    type V = Seq<DataItemV>;

    closed spec fn view(&self) -> Seq<DataItemV> {
        data_items_view(self.items@)
    }
}

proof fn lemma_data_items_view_push(s: Seq<DataSectionItem>, x: DataSectionItem)
    ensures
        data_items_view(s.push(x)) =~= data_items_view(s).push(x@),
{
}

proof fn lemma_text_items_view_push(s: Seq<TextSectionItem>, x: TextSectionItem)
    ensures
        text_items_view(s.push(x)) =~= text_items_view(s).push(x@),
{
}

impl Default for DataSection {
    /// An empty data section.
    fn default() -> (r: Self)
        ensures
            r@ == Seq::<DataItemV>::empty(),
    {
        let r = DataSection { items: Vec::new() };
        proof {
            assert(r@ =~= Seq::<DataItemV>::empty());
        }
        r
    }
}

impl DataSection {
    /// Appends a named datum of the given size keyword and value list.
    pub fn append(&mut self, name: &str, size: &str, values: &str)
        ensures
            final(self)@ == old(self)@.push(
                DataItemV::Data { name: name@, size: size@, values: values@ },
            ),
    {
        let item = DataSectionItem::Data {
            name: String::from_str(name),
            size: String::from_str(size),
            values: String::from_str(values),
        };
        proof {
            lemma_data_items_view_push(self.items@, item);
        }
        self.items.push(item);
    }

    /// Appends a `%define` macro.
    pub fn define(&mut self, name: &str, replacement: &str)
        ensures
            final(self)@ == old(self)@.push(
                DataItemV::DefineMacro { name: name@, replacement: replacement@ },
            ),
    {
        let item = DataSectionItem::DefineMacro {
            name: String::from_str(name),
            replacement: String::from_str(replacement),
        };
        proof {
            lemma_data_items_view_push(self.items@, item);
        }
        self.items.push(item);
    }

    /// Appends a `%strlen` macro.
    pub fn strlen(&mut self, name: &str, text: &str)
        ensures
            final(self)@ == old(self)@.push(
                DataItemV::StrlenMacro { name: name@, text: text@ },
            ),
    {
        let item = DataSectionItem::StrlenMacro {
            name: String::from_str(name),
            text: String::from_str(text),
        };
        proof {
            lemma_data_items_view_push(self.items@, item);
        }
        self.items.push(item);
    }
}

/// The text section being accumulated.
#[derive(Debug)]
pub struct TextSection {
    items: Vec<TextSectionItem>,
}

impl View for TextSection {
    type V = Seq<TextItemV>;

    closed spec fn view(&self) -> Seq<TextItemV> {
        text_items_view(self.items@)
    }
}

impl Default for TextSection {
    /// An empty text section.
    fn default() -> (r: Self)
        ensures
            r@ == Seq::<TextItemV>::empty(),
    {
        let r = TextSection { items: Vec::new() };
        proof {
            assert(r@ =~= Seq::<TextItemV>::empty());
        }
        r
    }
}

impl TextSection {
    /// An empty text section.
    pub fn new() -> (r: Self)
        ensures
            r@ == Seq::<TextItemV>::empty(),
    {
        let r = TextSection { items: Vec::new() };
        proof {
            assert(r@ =~= Seq::<TextItemV>::empty());
        }
        r
    }

    /// Appends a label.
    pub fn label(&mut self, name: &str)
        ensures
            final(self)@ == old(self)@.push(TextItemV::Label(name@)),
    {
        let item = TextSectionItem::Label(String::from_str(name));
        proof {
            lemma_text_items_view_push(self.items@, item);
        }
        self.items.push(item);
    }

    /// Appends an instruction.
    pub fn inst(&mut self, inst: &str)
        ensures
            final(self)@ == old(self)@.push(TextItemV::Instruction(inst@)),
    {
        let item = TextSectionItem::Instruction(String::from_str(inst));
        proof {
            lemma_text_items_view_push(self.items@, item);
        }
        self.items.push(item);
    }

    /// Appends all items of another text section, in order.
    pub fn extend(&mut self, other: TextSection)
        ensures
            final(self)@ == old(self)@ + other@,
    {
        let mut o = other;
        let ghost items0 = self.items@;
        let ghost other_items = o.items@;
        self.items.append(&mut o.items);
        proof {
            assert(text_items_view(items0 + other_items) =~= text_items_view(items0)
                + text_items_view(other_items));
        }
    }
}

/// The rendering of one data section item.
pub open spec fn data_item_text(it: DataItemV) -> Seq<char> {
    match it {
        DataItemV::Data { name, size, values } => "    "@ + name + " "@ + size + " "@ + values
            + "\n"@,
        DataItemV::DefineMacro { name, replacement } => "    %define "@ + name + " "@
            + replacement + "\n"@,
        DataItemV::StrlenMacro { name, text } => "    %strlen "@ + name + " "@ + text + "\n"@,
    }
}

/// The rendering of one text section item.
pub open spec fn text_item_text(it: TextItemV) -> Seq<char> {
    match it {
        TextItemV::Label(name) => name + ":\n"@,
        TextItemV::Instruction(inst) => "    "@ + inst + "\n"@,
    }
}

/// The rendering of the first `i` data section items.
pub open spec fn data_text(items: Seq<DataItemV>, i: int) -> Seq<char>
    decreases i,
{
    if i <= 0 {
        Seq::empty()
    } else {
        data_text(items, i - 1) + data_item_text(items[i - 1])
    }
}

/// The rendering of the first `i` text section items.
pub open spec fn text_text(items: Seq<TextItemV>, i: int) -> Seq<char>
    decreases i,
{
    if i <= 0 {
        Seq::empty()
    } else {
        text_text(items, i - 1) + text_item_text(items[i - 1])
    }
}

/// The fixed preamble of every emitted program: the mode and entry point,
/// the macro constants, and the data section header with its error-message
/// entry.
pub open spec fn asm_preamble() -> Seq<char> {
    "bits 64\n"@ + "global _start\n\n"@ + "%define ERR_MSG 'Type Error', 0\n"@
        + "%strlen ERR_MSG_CNT ERR_MSG\n\n"@ + "%define EXIT_FAILURE 1\n\n"@
        + "%define FD_STDOUT 1\n"@ + "%define FD_STDERR 2\n\n"@ + "%define SYS_EXIT 60\n"@
        + "%define SYS_WRITE 1\n\n"@ + "%define TYPE_STR 1\n\n"@ + "section .data\n"@
        + "    err_msg db ERR_MSG\n"@
}

/// The full rendering of an assembly program: preamble, data items, text
/// section header, text items.
pub open spec fn spec_stringify(a: AsmV) -> Seq<char> {
    asm_preamble() + data_text(a.data, a.data.len() as int) + "\nsection .text\n"@ + text_text(
        a.text,
        a.text.len() as int,
    )
}

/// The whole emitted program.
#[derive(Debug)]
pub struct Asm {
    pub data: DataSection,
    pub text: TextSection,
}

impl View for Asm {
    type V = AsmV;

    open spec fn view(&self) -> AsmV {
        AsmV { data: self.data@, text: self.text@ }
    }
}

impl Asm {
    /// Renders the program as the text written to the output assembly
    /// file. The result is a pure function of the program: stringifying
    /// twice yields identical text.
    #[verifier::loop_isolation(false)]
    pub fn stringify(&self) -> (s: String)
        ensures
            s@ == spec_stringify(self@),
    {
        let mut result = String::from_str("bits 64\n");
        result.append("global _start\n\n");
        result.append("%define ERR_MSG 'Type Error', 0\n");
        result.append("%strlen ERR_MSG_CNT ERR_MSG\n\n");
        result.append("%define EXIT_FAILURE 1\n\n");
        result.append("%define FD_STDOUT 1\n");
        result.append("%define FD_STDERR 2\n\n");
        result.append("%define SYS_EXIT 60\n");
        result.append("%define SYS_WRITE 1\n\n");
        result.append("%define TYPE_STR 1\n\n");
        result.append("section .data\n");
        result.append("    err_msg db ERR_MSG\n");
        proof {
            assert(result@ =~= asm_preamble());
            assert(asm_preamble() + data_text(self.data@, 0int) =~= asm_preamble());
        }

        let n = self.data.items.len();
        let mut i: usize = 0;
        while i < n
            invariant
                n == self.data.items@.len(),
                i <= n,
                result@ == asm_preamble() + data_text(self.data@, i as int),
            decreases n - i,
        {
            match &self.data.items[i] {
                DataSectionItem::Data { name, size, values } => {
                    result.append("    ");
                    result.append(name.as_str());
                    result.append(" ");
                    result.append(size.as_str());
                    result.append(" ");
                    result.append(values.as_str());
                    result.append("\n");
                },
                DataSectionItem::DefineMacro { name, replacement } => {
                    result.append("    %define ");
                    result.append(name.as_str());
                    result.append(" ");
                    result.append(replacement.as_str());
                    result.append("\n");
                },
                DataSectionItem::StrlenMacro { name, text } => {
                    result.append("    %strlen ");
                    result.append(name.as_str());
                    result.append(" ");
                    result.append(text.as_str());
                    result.append("\n");
                },
            }
            proof {
                assert(self.data@[i as int] == self.data.items@[i as int]@);
                assert(result@ =~= asm_preamble() + data_text(self.data@, i as int + 1));
            }
            i = i + 1;
        }

        result.append("\nsection .text\n");
        let ghost mid = result@;
        proof {
            assert(mid + text_text(self.text@, 0int) =~= mid);
        }

        let m = self.text.items.len();
        let mut j: usize = 0;
        while j < m
            invariant
                m == self.text.items@.len(),
                j <= m,
                result@ == mid + text_text(self.text@, j as int),
                mid == asm_preamble() + data_text(self.data@, self.data.items@.len() as int)
                    + "\nsection .text\n"@,
            decreases m - j,
        {
            match &self.text.items[j] {
                TextSectionItem::Label(label_name) => {
                    result.append(label_name.as_str());
                    result.append(":\n");
                },
                TextSectionItem::Instruction(inst) => {
                    result.append("    ");
                    result.append(inst.as_str());
                    result.append("\n");
                },
            }
            proof {
                assert(self.text@[j as int] == self.text.items@[j as int]@);
                assert(result@ =~= mid + text_text(self.text@, j as int + 1));
            }
            j = j + 1;
        }
        proof {
            assert(result@ =~= spec_stringify(self@));
        }
        result
    }
}

} // verus!
