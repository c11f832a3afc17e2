//! `interface` declarations, rendered as Artel interface types.

use vstd::prelude::*;
use crate::artel_str::ArtelStr;
use crate::ast_type::{
    Identifier, GenericParams, TypeReference, TypeRefModel, InterfaceMember, MemberModel,
    TypeParamModel, type_params_model, type_params_ok, generics_text, generic_params_str, types_ok,
    type_ref_text, member_ok, member_text, type_params_can_render, types_can_render,
    type_param_texts,
};
use crate::identifier::identifier_text;
use crate::text::{spaces, join_text, texts, indent, owned, join_strings, lemma_texts_push};

verus! {

broadcast use vstd::std_specs::vec::group_vec_axioms;

pub struct ArtelInterfaceDeclaration {
    pub name: Identifier,
    pub generic_params: GenericParams,
    pub extends: Vec<TypeReference>,
    pub body: Vec<InterfaceMember>,
}

pub struct InterfaceModel {
    pub name: Seq<char>,
    pub generics: Seq<TypeParamModel>,
    pub extends: Seq<TypeRefModel>,
    pub body: Seq<MemberModel>,
}

impl View for ArtelInterfaceDeclaration {
    type V = InterfaceModel;

    open spec fn view(&self) -> InterfaceModel {
        InterfaceModel {
            name: self.name@,
            generics: type_params_model(self.generic_params),
            extends: self.extends@.map_values(|r: TypeReference| r@),
            body: self.body@.map_values(|m: InterfaceMember| m@),
        }
    }
}

/// The rendering of each extended interface.
pub open spec fn extends_texts(extends: Seq<TypeRefModel>) -> Seq<Seq<char>> {
    Seq::new(extends.len(), |i: int| type_ref_text(extends[i]))
}

/// The rendering of each member at `ident_level`.
pub open spec fn interface_member_texts(body: Seq<MemberModel>, ident_level: nat) -> Seq<Seq<char>> {
    Seq::new(body.len(), |i: int| member_text(body[i], ident_level))
}

/// ` A, B<T>` after `интерфейс`, or nothing when the interface extends nothing.
pub open spec fn extends_text(extends: Seq<TypeRefModel>) -> Seq<char> {
    if extends.len() == 0 {
        seq![]
    } else {
        " "@ + join_text(extends_texts(extends), ", "@)
    }
}

pub open spec fn interface_text(d: InterfaceModel, ident_level: nat) -> Seq<char> {
    spaces(ident_level) + "тип "@ + identifier_text(d.name) + generics_text(d.generics)
        + " = интерфейс"@ + extends_text(d.extends) + "\n"@ + spaces(ident_level) + "{\n"@
        + join_text(interface_member_texts(d.body, ident_level + 2), "\n\n"@) + "\n"@ + spaces(
        ident_level,
    ) + "}\n"@
}

/// An interface's header is `тип `, its name, its generic parameter list and
/// ` = интерфейс`: type parameters `<T, ...>` come right after the name, as
/// for a type alias or a class, and nothing comes there when it has none.
pub proof fn law_interface_header(d: InterfaceModel, ident_level: nat)
    ensures
        (spaces(ident_level) + "тип "@ + identifier_text(d.name) + generics_text(d.generics)
            + " = интерфейс"@).is_prefix_of(interface_text(d, ident_level)),
        d.generics.len() > 0 ==> generics_text(d.generics) == "<"@ + join_text(
            type_param_texts(d.generics),
            ", "@,
        ) + ">"@,
        d.generics.len() == 0 ==> generics_text(d.generics) == Seq::<char>::empty(),
{
    let head = spaces(ident_level) + "тип "@ + identifier_text(d.name) + generics_text(d.generics)
        + " = интерфейс"@;
    let rest = extends_text(d.extends) + "\n"@ + spaces(ident_level) + "{\n"@ + join_text(
        interface_member_texts(d.body, ident_level + 2),
        "\n\n"@,
    ) + "\n"@ + spaces(ident_level) + "}\n"@;
    assert(interface_text(d, ident_level) =~= head + rest);
    assert((head + rest).subrange(0, head.len() as int) =~= head);
    assert(type_param_texts(d.generics).len() == d.generics.len()) by {
        lemma_type_param_texts_len(d.generics);
    }
}

/// One rendering for each type parameter.
proof fn lemma_type_param_texts_len(ps: Seq<TypeParamModel>)
    ensures
        type_param_texts(ps).len() == ps.len(),
    decreases ps.len(),
{
    if ps.len() > 0 {
        lemma_type_param_texts_len(ps.drop_last());
    }
}

/// Rendering an interface needs its types renderable and the indentation of
/// its members within 100.
pub open spec fn interface_ready(d: InterfaceModel, ident_level: nat) -> bool {
    &&& ident_level <= 100
    &&& type_params_ok(d.generics)
    &&& forall|i: int| 0 <= i < d.extends.len() ==> types_ok(#[trigger] d.extends[i].args)
    &&& d.body.len() > 0 ==> ident_level + 2 <= 100
    &&& forall|i: int| 0 <= i < d.body.len() ==> member_ok(#[trigger] d.body[i])
}

impl ArtelInterfaceDeclaration {
    pub fn new(
        name: Identifier,
        generic_params: GenericParams,
        extends: Vec<TypeReference>,
        body: Vec<InterfaceMember>,
    ) -> (r: Self)
        ensures
            r.name == name,
            r.generic_params == generic_params,
            r.extends == extends,
            r.body == body,
    {
        ArtelInterfaceDeclaration { name, generic_params, extends, body }
    }

    pub fn render(&self, ident_level: usize) -> (r: String)
        requires
            interface_ready(self@, ident_level as nat),
        ensures
            r@ == interface_text(self@, ident_level as nat),
    {
        let ghost d = self@;
        let mut r = owned(indent(ident_level));
        r.append("тип ");
        let name = self.name.artel_str(0);
        r.append(name.as_str());
        let g = generic_params_str(&self.generic_params);
        r.append(g.as_str());
        r.append(" = интерфейс");
        if self.extends.len() > 0 {
            let ne = self.extends.len();
            let mut parts: Vec<String> = Vec::new();
            let mut j: usize = 0;
            while j < ne
                invariant
                    j <= ne == self.extends.len(),
                    d == self@,
                    forall|i: int| 0 <= i < d.extends.len() ==> types_ok(#[trigger] d.extends[i].args),
                    texts(parts@) == extends_texts(d.extends).take(j as int),
                decreases ne - j,
            {
                assert(types_ok(d.extends[j as int].args));
                let one = self.extends[j].render();
                proof {
                    lemma_texts_push(parts@, one);
                    assert(extends_texts(d.extends).take(j + 1) =~= extends_texts(d.extends).take(
                        j as int,
                    ).push(one@));
                }
                parts.push(one);
                j = j + 1;
            }
            assert(extends_texts(d.extends).take(ne as int) =~= extends_texts(d.extends));
            r.append(" ");
            let joined = join_strings(&parts, ", ");
            r.append(joined.as_str());
        }
        r.append("\n");
        r.append(indent(ident_level));
        r.append("{\n");
        let n = self.body.len();
        let mut parts: Vec<String> = Vec::new();
        let mut j: usize = 0;
        while j < n
            invariant
                j <= n == self.body.len(),
                d == self@,
                n > 0 ==> ident_level + 2 <= 100,
                forall|i: int| 0 <= i < d.body.len() ==> member_ok(#[trigger] d.body[i]),
                texts(parts@) == interface_member_texts(d.body, (ident_level + 2) as nat).take(
                    j as int,
                ),
            decreases n - j,
        {
            assert(member_ok(d.body[j as int]));
            let one = self.body[j].render(ident_level + 2);
            proof {
                lemma_texts_push(parts@, one);
                assert(interface_member_texts(d.body, (ident_level + 2) as nat).take(j + 1)
                    =~= interface_member_texts(d.body, (ident_level + 2) as nat).take(
                    j as int,
                ).push(one@));
            }
            parts.push(one);
            j = j + 1;
        }
        assert(interface_member_texts(d.body, (ident_level + 2) as nat).take(n as int)
            =~= interface_member_texts(d.body, (ident_level + 2) as nat));
        let joined = join_strings(&parts, "\n\n");
        r.append(joined.as_str());
        r.append("\n");
        r.append(indent(ident_level));
        r.append("}\n");
        r
    }
}

impl ArtelInterfaceDeclaration {
    /// Whether the interface can be rendered at `ident_level`.
    pub fn can_render(&self, ident_level: usize) -> (r: bool)
        ensures
            r == interface_ready(self@, ident_level as nat),
    {
        let ghost d = self@;
        if ident_level > 100 || !type_params_can_render(&self.generic_params) {
            return false;
        }
        if self.body.len() > 0 && ident_level + 2 > 100 {
            return false;
        }
        let ne = self.extends.len();
        let mut j: usize = 0;
        while j < ne
            invariant
                j <= ne == self.extends.len(),
                d == self@,
                forall|i: int| 0 <= i < j ==> types_ok(#[trigger] d.extends[i].args),
            decreases ne - j,
        {
            if !types_can_render(&self.extends[j].type_arguments) {
                assert(!types_ok(d.extends[j as int].args));
                return false;
            }
            j = j + 1;
        }
        let n = self.body.len();
        let mut k: usize = 0;
        while k < n
            invariant
                k <= n == self.body.len(),
                d == self@,
                forall|i: int| 0 <= i < k ==> member_ok(#[trigger] d.body[i]),
            decreases n - k,
        {
            if !self.body[k].can_render() {
                assert(!member_ok(d.body[k as int]));
                return false;
            }
            k = k + 1;
        }
        true
    }
}

impl ArtelStr for ArtelInterfaceDeclaration {
    open spec fn artel_ready(&self, ident_level: usize) -> bool {
        interface_ready(self@, ident_level as nat)
    }

    open spec fn artel_text(&self, ident_level: usize) -> Seq<char> {
        interface_text(self@, ident_level as nat)
    }

    fn artel_str(&self, ident_level: usize) -> (r: String) {
        self.render(ident_level)
    }
}

} // verus!
