//! A verified parser for the device's XML status document.
//!
//! The upstream controller answers every status request with a single XML
//! element whose attributes carry the result, for example
//! `<LL value="0.25" control="io/light" Code="200"/>`.
//!
//! The grammar accepted here is exactly the shape of those documents:
//! optional whitespace, one element with double- or single-quoted
//! attributes, closed either by `/>` or by a matching end tag with nothing
//! but whitespace in between, and optional trailing whitespace. Attribute
//! values are kept verbatim (no entity decoding), unknown attributes are
//! ignored, and when an attribute name is repeated the first occurrence
//! wins. A document parses into a record exactly when all three of the
//! `value`, `control` and `Code` attributes are present.
//!
//! The parser is a character-at-a-time state machine. Its mathematical
//! definition is `xml_step` folded over the input (`xml_run`); the
//! executable machine is proved to track that definition character by
//! character.

use crate::record::DeviceStatusRecord;
use crate::record::RecordView;
use crate::text::chars_eq;
use crate::text::clone_chars;
use crate::text::string_from_chars;
use crate::text::to_char_vec;
use vstd::prelude::*;

verus! {

/// One attribute of the root element: its name and its verbatim value.
pub struct AttrView {
    pub name: Seq<char>,
    pub val: Seq<char>,
}

/// Whitespace accepted between the tokens of the document.
pub open spec fn is_ws(c: char) -> bool {
    c == ' ' || c == '\t' || c == '\n' || c == '\r'
}

/// Characters that may begin an element or attribute name.
pub open spec fn is_name_start(c: char) -> bool {
    ('a' as u32 <= c as u32 && c as u32 <= 'z' as u32) || ('A' as u32 <= c as u32 && c as u32
        <= 'Z' as u32) || c == '_' || c == ':'
}

/// Characters that may continue an element or attribute name.
pub open spec fn is_name_char(c: char) -> bool {
    is_name_start(c) || ('0' as u32 <= c as u32 && c as u32 <= '9' as u32) || c == '-' || c == '.'
}

/// Where the machine stands in the document.
#[derive(Clone, Copy)]
pub enum XmlMode {
    /// Whitespace before the opening `<`.
    Start,
    /// Reading the element name.
    ElemName,
    /// Whitespace between attributes, after the element name.
    BetweenAttrs,
    /// Reading an attribute name.
    AttrName,
    /// Whitespace between an attribute name and its `=`.
    BeforeEq,
    /// Whitespace between `=` and the opening quote.
    AfterEq,
    /// Reading an attribute value delimited by the given quote.
    Value(char),
    /// Saw `/`, expecting the `>` of a self-closing element.
    AfterSlash,
    /// After the `>` of the open tag; only whitespace before the end tag.
    Content,
    /// Saw the `<` of the end tag, expecting `/`.
    ClosePrefix,
    /// Reading the end-tag name.
    CloseName,
    /// Whitespace between the end-tag name and its `>`.
    CloseWs,
    /// A complete document was read.
    Done,
    /// The input is not a document of this grammar.
    Failed,
}

/// The whole state of the machine: the mode, the element name, the
/// attributes read so far, the attribute name and value being read, and
/// the end-tag name being read.
pub struct MachineView {
    pub mode: XmlMode,
    pub elem: Seq<char>,
    pub attrs: Seq<AttrView>,
    pub name: Seq<char>,
    pub val: Seq<char>,
    pub close: Seq<char>,
}

/// The machine before any character has been read.
pub open spec fn xml_init() -> MachineView {
    MachineView {
        mode: XmlMode::Start,
        elem: Seq::empty(),
        attrs: Seq::empty(),
        name: Seq::empty(),
        val: Seq::empty(),
        close: Seq::empty(),
    }
}

/// The machine after rejecting the input.
pub open spec fn xml_fail(m: MachineView) -> MachineView {
    MachineView { mode: XmlMode::Failed, ..m }
}

/// One step of the machine: the state after reading `c` in state `m`.
pub open spec fn xml_step(m: MachineView, c: char) -> MachineView {
    match m.mode {
        XmlMode::Start => if is_ws(c) {
            m
        } else if c == '<' {
            MachineView { mode: XmlMode::ElemName, ..m }
        } else {
            xml_fail(m)
        },
        XmlMode::ElemName => if m.elem.len() == 0 {
            if is_name_start(c) {
                MachineView { elem: seq![c], ..m }
            } else {
                xml_fail(m)
            }
        } else if is_name_char(c) {
            MachineView { elem: m.elem.push(c), ..m }
        } else if is_ws(c) {
            MachineView { mode: XmlMode::BetweenAttrs, ..m }
        } else if c == '/' {
            MachineView { mode: XmlMode::AfterSlash, ..m }
        } else if c == '>' {
            MachineView { mode: XmlMode::Content, ..m }
        } else {
            xml_fail(m)
        },
        XmlMode::BetweenAttrs => if is_ws(c) {
            m
        } else if is_name_start(c) {
            MachineView { mode: XmlMode::AttrName, name: seq![c], ..m }
        } else if c == '/' {
            MachineView { mode: XmlMode::AfterSlash, ..m }
        } else if c == '>' {
            MachineView { mode: XmlMode::Content, ..m }
        } else {
            xml_fail(m)
        },
        XmlMode::AttrName => if is_name_char(c) {
            MachineView { name: m.name.push(c), ..m }
        } else if c == '=' {
            MachineView { mode: XmlMode::AfterEq, ..m }
        } else if is_ws(c) {
            MachineView { mode: XmlMode::BeforeEq, ..m }
        } else {
            xml_fail(m)
        },
        XmlMode::BeforeEq => if is_ws(c) {
            m
        } else if c == '=' {
            MachineView { mode: XmlMode::AfterEq, ..m }
        } else {
            xml_fail(m)
        },
        XmlMode::AfterEq => if is_ws(c) {
            m
        } else if c == '"' || c == '\'' {
            MachineView { mode: XmlMode::Value(c), val: Seq::empty(), ..m }
        } else {
            xml_fail(m)
        },
        XmlMode::Value(q) => if c == q {
            MachineView {
                mode: XmlMode::BetweenAttrs,
                attrs: m.attrs.push(AttrView { name: m.name, val: m.val }),
                name: Seq::empty(),
                val: Seq::empty(),
                ..m
            }
        } else {
            MachineView { val: m.val.push(c), ..m }
        },
        XmlMode::AfterSlash => if c == '>' {
            MachineView { mode: XmlMode::Done, ..m }
        } else {
            xml_fail(m)
        },
        XmlMode::Content => if is_ws(c) {
            m
        } else if c == '<' {
            MachineView { mode: XmlMode::ClosePrefix, ..m }
        } else {
            xml_fail(m)
        },
        XmlMode::ClosePrefix => if c == '/' {
            MachineView { mode: XmlMode::CloseName, close: Seq::empty(), ..m }
        } else {
            xml_fail(m)
        },
        XmlMode::CloseName => if m.close.len() == 0 {
            if is_name_start(c) {
                MachineView { close: seq![c], ..m }
            } else {
                xml_fail(m)
            }
        } else if is_name_char(c) {
            MachineView { close: m.close.push(c), ..m }
        } else if is_ws(c) {
            MachineView { mode: XmlMode::CloseWs, ..m }
        } else if c == '>' && m.close == m.elem {
            MachineView { mode: XmlMode::Done, ..m }
        } else {
            xml_fail(m)
        },
        XmlMode::CloseWs => if is_ws(c) {
            m
        } else if c == '>' && m.close == m.elem {
            MachineView { mode: XmlMode::Done, ..m }
        } else {
            xml_fail(m)
        },
        XmlMode::Done => if is_ws(c) {
            m
        } else {
            xml_fail(m)
        },
        XmlMode::Failed => m,
    }
}

/// The machine after reading the first `n` characters of `s`.
pub open spec fn xml_run(s: Seq<char>, n: int) -> MachineView
    decreases n,
{
    if n <= 0 {
        xml_init()
    } else {
        xml_step(xml_run(s, n - 1), s[n - 1])
    }
}

/// The value of the first attribute named `name`, if any.
pub open spec fn lookup_attr(attrs: Seq<AttrView>, name: Seq<char>) -> Option<Seq<char>>
    decreases attrs.len(),
{
    if attrs.len() == 0 {
        None
    } else if attrs[0].name == name {
        Some(attrs[0].val)
    } else {
        lookup_attr(attrs.drop_first(), name)
    }
}

/// What `s` parses to: the record carried by the document, where `s` is a
/// complete document of the grammar whose root element has all three of
/// the `value`, `control` and `Code` attributes, and nothing otherwise.
pub open spec fn spec_parse_device_status(s: Seq<char>) -> Option<RecordView> {
    let m = xml_run(s, s.len() as int);
    if m.mode is Done {
        match (lookup_attr(m.attrs, "value"@), lookup_attr(m.attrs, "control"@), lookup_attr(
            m.attrs,
            "Code"@,
        )) {
            (Some(v), Some(c), Some(k)) => Some(RecordView { value: v, control: c, code: k }),
            _ => None,
        }
    } else {
        None
    }
}

/// The view of an executable attribute pair.
pub open spec fn attr_of(p: (Vec<char>, Vec<char>)) -> AttrView {
    AttrView { name: p.0@, val: p.1@ }
}

/// The executable machine; it tracks `xml_step` character by character.
pub struct XmlMachine {
    mode: XmlMode,
    elem: Vec<char>,
    attrs: Vec<(Vec<char>, Vec<char>)>,
    name: Vec<char>,
    val: Vec<char>,
    close: Vec<char>,
}

impl View for XmlMachine {
    type V = MachineView;

    closed spec fn view(&self) -> MachineView {
        MachineView {
            mode: self.mode,
            elem: self.elem@,
            attrs: self.attrs@.map_values(|p: (Vec<char>, Vec<char>)| attr_of(p)),
            name: self.name@,
            val: self.val@,
            close: self.close@,
        }
    }
}

/// Whitespace accepted between the tokens of the document.
fn is_ws_exec(c: char) -> (b: bool)
    ensures
        b == is_ws(c),
{
    c == ' ' || c == '\t' || c == '\n' || c == '\r'
}

/// Characters that may begin an element or attribute name.
fn is_name_start_exec(c: char) -> (b: bool)
    ensures
        b == is_name_start(c),
{
    let u = c as u32;
    ('a' as u32 <= u && u <= 'z' as u32) || ('A' as u32 <= u && u <= 'Z' as u32) || c == '_' || c
        == ':'
}

/// Characters that may continue an element or attribute name.
fn is_name_char_exec(c: char) -> (b: bool)
    ensures
        b == is_name_char(c),
{
    let u = c as u32;
    is_name_start_exec(c) || ('0' as u32 <= u && u <= '9' as u32) || c == '-' || c == '.'
}

impl XmlMachine {
    /// The machine before any character has been read.
    fn new() -> (m: XmlMachine)
        ensures
            m@ == xml_init(),
    {
        let m = XmlMachine {
            mode: XmlMode::Start,
            elem: Vec::new(),
            attrs: Vec::new(),
            name: Vec::new(),
            val: Vec::new(),
            close: Vec::new(),
        };
        assert(m@.attrs =~= xml_init().attrs);
        assert(m@ =~= xml_init());
        m
    }

    /// Reads one character.
    fn step(&mut self, c: char)
        ensures
            final(self)@ == xml_step(old(self)@, c),
    {
        let mode = self.mode;
        match mode {
            XmlMode::Start => {
                if is_ws_exec(c) {
                } else if c == '<' {
                    self.mode = XmlMode::ElemName;
                } else {
                    self.mode = XmlMode::Failed;
                }
            },
            XmlMode::ElemName => {
                if self.elem.len() == 0 {
                    if is_name_start_exec(c) {
                        self.elem.push(c);
                        assert(self.elem@ =~= seq![c]);
                    } else {
                        self.mode = XmlMode::Failed;
                    }
                } else if is_name_char_exec(c) {
                    self.elem.push(c);
                } else if is_ws_exec(c) {
                    self.mode = XmlMode::BetweenAttrs;
                } else if c == '/' {
                    self.mode = XmlMode::AfterSlash;
                } else if c == '>' {
                    self.mode = XmlMode::Content;
                } else {
                    self.mode = XmlMode::Failed;
                }
            },
            XmlMode::BetweenAttrs => {
                if is_ws_exec(c) {
                } else if is_name_start_exec(c) {
                    self.mode = XmlMode::AttrName;
                    self.name = Vec::new();
                    self.name.push(c);
                    assert(self.name@ =~= seq![c]);
                } else if c == '/' {
                    self.mode = XmlMode::AfterSlash;
                } else if c == '>' {
                    self.mode = XmlMode::Content;
                } else {
                    self.mode = XmlMode::Failed;
                }
            },
            XmlMode::AttrName => {
                if is_name_char_exec(c) {
                    self.name.push(c);
                } else if c == '=' {
                    self.mode = XmlMode::AfterEq;
                } else if is_ws_exec(c) {
                    self.mode = XmlMode::BeforeEq;
                } else {
                    self.mode = XmlMode::Failed;
                }
            },
            XmlMode::BeforeEq => {
                if is_ws_exec(c) {
                } else if c == '=' {
                    self.mode = XmlMode::AfterEq;
                } else {
                    self.mode = XmlMode::Failed;
                }
            },
            XmlMode::AfterEq => {
                if is_ws_exec(c) {
                } else if c == '"' || c == '\'' {
                    self.mode = XmlMode::Value(c);
                    self.val = Vec::new();
                } else {
                    self.mode = XmlMode::Failed;
                }
            },
            XmlMode::Value(q) => {
                if c == q {
                    let name = clone_chars(&self.name);
                    let val = clone_chars(&self.val);
                    self.attrs.push((name, val));
                    self.name = Vec::new();
                    self.val = Vec::new();
                    self.mode = XmlMode::BetweenAttrs;
                    assert(self@.attrs =~= xml_step(old(self)@, c).attrs);
                } else {
                    self.val.push(c);
                }
            },
            XmlMode::AfterSlash => {
                if c == '>' {
                    self.mode = XmlMode::Done;
                } else {
                    self.mode = XmlMode::Failed;
                }
            },
            XmlMode::Content => {
                if is_ws_exec(c) {
                } else if c == '<' {
                    self.mode = XmlMode::ClosePrefix;
                } else {
                    self.mode = XmlMode::Failed;
                }
            },
            XmlMode::ClosePrefix => {
                if c == '/' {
                    self.mode = XmlMode::CloseName;
                    self.close = Vec::new();
                } else {
                    self.mode = XmlMode::Failed;
                }
            },
            XmlMode::CloseName => {
                if self.close.len() == 0 {
                    if is_name_start_exec(c) {
                        self.close.push(c);
                        assert(self.close@ =~= seq![c]);
                    } else {
                        self.mode = XmlMode::Failed;
                    }
                } else if is_name_char_exec(c) {
                    self.close.push(c);
                } else if is_ws_exec(c) {
                    self.mode = XmlMode::CloseWs;
                } else if c == '>' && chars_eq(&self.close, &self.elem) {
                    self.mode = XmlMode::Done;
                } else {
                    self.mode = XmlMode::Failed;
                }
            },
            XmlMode::CloseWs => {
                if is_ws_exec(c) {
                } else if c == '>' && chars_eq(&self.close, &self.elem) {
                    self.mode = XmlMode::Done;
                } else {
                    self.mode = XmlMode::Failed;
                }
            },
            XmlMode::Done => {
                if is_ws_exec(c) {
                } else {
                    self.mode = XmlMode::Failed;
                }
            },
            XmlMode::Failed => {},
        }
    }
}

/// The value of the first attribute named `name`, copied out.
fn find_attr(attrs: &Vec<(Vec<char>, Vec<char>)>, name: &Vec<char>) -> (r: Option<Vec<char>>)
    ensures
        ({
            let mapped = attrs@.map_values(|p: (Vec<char>, Vec<char>)| attr_of(p));
            match r {
                Some(v) => lookup_attr(mapped, name@) == Some(v@),
                None => lookup_attr(mapped, name@) is None,
            }
        }),
{
    let ghost mapped = attrs@.map_values(|p: (Vec<char>, Vec<char>)| attr_of(p));
    proof {
        assert(mapped.skip(0) =~= mapped);
    }
    let mut i: usize = 0;
    while i < attrs.len()
        invariant
            i <= attrs@.len(),
            mapped == attrs@.map_values(|p: (Vec<char>, Vec<char>)| attr_of(p)),
            mapped.len() == attrs@.len(),
            lookup_attr(mapped, name@) == lookup_attr(mapped.skip(i as int), name@),
        decreases attrs@.len() - i,
    {
        proof {
            assert(mapped.skip(i as int).len() == mapped.len() - i);
            assert(mapped.skip(i as int)[0] == mapped[i as int]);
            assert(mapped.skip(i as int).drop_first() =~= mapped.skip(i as int + 1));
        }
        if chars_eq(&attrs[i].0, name) {
            let v = clone_chars(&attrs[i].1);
            assert(lookup_attr(mapped.skip(i as int), name@) == Some(mapped[i as int].val));
            return Some(v);
        }
        assert(lookup_attr(mapped.skip(i as int), name@) == lookup_attr(
            mapped.skip(i as int + 1),
            name@,
        ));
        i = i + 1;
    }
    assert(mapped.skip(i as int) =~= Seq::<AttrView>::empty());
    assert(lookup_attr(mapped, name@) is None);
    None
}

/// Parses the upstream body against the status-document grammar, returning
/// the record exactly when `spec_parse_device_status` says one is there.
pub fn parse_device_status(body: &str) -> (r: Option<DeviceStatusRecord>)
    ensures
        match r {
            Some(rec) => spec_parse_device_status(body@) == Some(rec@),
            None => spec_parse_device_status(body@) is None,
        },
{
    let chars = to_char_vec(body);
    let mut m = XmlMachine::new();
    let mut i: usize = 0;
    while i < chars.len()
        invariant
            i <= chars@.len(),
            chars@ == body@,
            m@ == xml_run(body@, i as int),
        decreases chars@.len() - i,
    {
        m.step(chars[i]);
        i = i + 1;
        assert(m@ == xml_run(body@, i as int));
    }
    assert(m@ == xml_run(body@, body@.len() as int));
    match m.mode {
        XmlMode::Done => {
            let value_name = to_char_vec("value");
            let control_name = to_char_vec("control");
            let code_name = to_char_vec("Code");
            let value = find_attr(&m.attrs, &value_name);
            let control = find_attr(&m.attrs, &control_name);
            let code = find_attr(&m.attrs, &code_name);
            match (value, control, code) {
                (Some(v), Some(c), Some(k)) => {
                    let rec = DeviceStatusRecord::new(
                        string_from_chars(&v),
                        string_from_chars(&c),
                        string_from_chars(&k),
                    );
                    Some(rec)
                },
                _ => None,
            }
        },
        _ => None,
    }
}

} // verus!
