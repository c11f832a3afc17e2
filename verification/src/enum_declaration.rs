//! `enum` declarations, rendered as Artel variant types.

use vstd::prelude::*;
use crate::artel_str::ArtelStr;
use crate::ast_type::Identifier;
use crate::text::{spaces, concat_text, texts, indent, owned, concat_strings, lemma_texts_push};

verus! {

pub struct EnumDeclaration {
    pub name: Identifier,
    pub items: Vec<EnumItem>,
}

pub struct EnumItem {
    pub name: Identifier,
    pub value: Option<String>,
}

pub struct EnumItemModel {
    pub name: Seq<char>,
    pub value: Option<Seq<char>>,
}

pub struct EnumModel {
    pub name: Seq<char>,
    pub items: Seq<EnumItemModel>,
}

pub open spec fn enum_item_model(it: EnumItem) -> EnumItemModel {
    EnumItemModel {
        name: it.name@,
        value: match it.value {
            Some(v) => Some(v@),
            None => None,
        },
    }
}

impl View for EnumItem {
    type V = EnumItemModel;

    open spec fn view(&self) -> EnumItemModel {
        enum_item_model(*self)
    }
}

impl View for EnumDeclaration {
    type V = EnumModel;

    open spec fn view(&self) -> EnumModel {
        EnumModel { name: self.name@, items: self.items@.map_values(|it: EnumItem| it@) }
    }
}

pub open spec fn enum_item_text(it: EnumItemModel, ident_level: nat) -> Seq<char> {
    spaces(ident_level) + it.name + match it.value {
        Some(v) => " = "@ + v,
        None => seq![],
    }
}

/// Each item on a line of its own.
pub open spec fn enum_item_lines(items: Seq<EnumItemModel>, ident_level: nat) -> Seq<Seq<char>> {
    Seq::new(items.len(), |i: int| enum_item_text(items[i], ident_level) + "\n"@)
}

pub open spec fn enum_text(e: EnumModel, ident_level: nat) -> Seq<char> {
    spaces(ident_level) + "тип "@ + e.name + " = вариант"@ + "\n"@ + spaces(ident_level) + "{\n"@
        + concat_text(enum_item_lines(e.items, ident_level + 2)) + spaces(ident_level) + "}"@
}

/// Rendering an enum needs the indentation of its items to stay within 100.
pub open spec fn enum_ready(e: EnumModel, ident_level: nat) -> bool {
    &&& ident_level <= 100
    &&& e.items.len() > 0 ==> ident_level + 2 <= 100
}

impl EnumItem {
    pub fn new(name: Identifier, value: Option<String>) -> (r: Self)
        ensures
            r.name == name,
            r.value == value,
    {
        EnumItem { name, value }
    }
}

impl ArtelStr for EnumItem {
    open spec fn artel_ready(&self, ident_level: usize) -> bool {
        ident_level <= 100
    }

    open spec fn artel_text(&self, ident_level: usize) -> Seq<char> {
        enum_item_text(self@, ident_level as nat)
    }

    fn artel_str(&self, ident_level: usize) -> (r: String) {
        let mut r = owned(indent(ident_level));
        r.append(self.name.0.as_str());
        match &self.value {
            Some(v) => {
                r.append(" = ");
                r.append(v.as_str());
            },
            None => {},
        }
        r
    }
}

impl EnumDeclaration {
    pub fn new(name: Identifier, items: Vec<EnumItem>) -> (r: Self)
        ensures
            r.name == name,
            r.items == items,
    {
        EnumDeclaration { name, items }
    }
}

impl EnumDeclaration {
    /// Whether the enum can be rendered at `ident_level`.
    pub fn can_render(&self, ident_level: usize) -> (r: bool)
        ensures
            r == enum_ready(self@, ident_level as nat),
    {
        ident_level <= 100 && (self.items.len() == 0 || ident_level + 2 <= 100)
    }
}

impl ArtelStr for EnumDeclaration {
    open spec fn artel_ready(&self, ident_level: usize) -> bool {
        enum_ready(self@, ident_level as nat)
    }

    open spec fn artel_text(&self, ident_level: usize) -> Seq<char> {
        enum_text(self@, ident_level as nat)
    }

    fn artel_str(&self, ident_level: usize) -> (r: String) {
        let ghost items = self@.items;
        let mut lines: Vec<String> = Vec::new();
        let n = self.items.len();
        let mut j: usize = 0;
        while j < n
            invariant
                j <= n == self.items.len(),
                items == self@.items,
                n > 0 ==> ident_level + 2 <= 100,
                texts(lines@) == enum_item_lines(items, (ident_level + 2) as nat).take(j as int),
            decreases n - j,
        {
            let mut line = self.items[j].artel_str(ident_level + 2);
            line.append("\n");
            proof {
                lemma_texts_push(lines@, line);
                assert(enum_item_lines(items, (ident_level + 2) as nat).take(j + 1) =~= enum_item_lines(
                    items,
                    (ident_level + 2) as nat,
                ).take(j as int).push(line@));
            }
            lines.push(line);
            j = j + 1;
        }
        assert(enum_item_lines(items, (ident_level + 2) as nat).take(n as int) =~= enum_item_lines(
            items,
            (ident_level + 2) as nat,
        ));
        let mut r = owned(indent(ident_level));
        r.append("тип ");
        r.append(self.name.0.as_str());
        r.append(" = вариант");
        r.append("\n");
        r.append(indent(ident_level));
        r.append("{\n");
        let body = concat_strings(&lines);
        r.append(body.as_str());
        r.append(indent(ident_level));
        r.append("}");
        r
    }
}

} // verus!
