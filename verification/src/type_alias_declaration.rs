//! `type Name<T> = ...` declarations.

use vstd::prelude::*;
use crate::artel_str::ArtelStr;
use crate::ast_type::{
    Identifier, Type, TypeModel, GenericParams, TypeParamModel, type_ok, type_text, type_params_ok,
    type_params_model, generics_text, generic_params_str, type_params_can_render,
};
use crate::text::{spaces, indent, owned};

verus! {

pub struct ArtelTypeAliasDeclaration {
    pub alias: Identifier,
    pub generic_params: GenericParams,
    pub value: Type,
}

pub struct TypeAliasModel {
    pub alias: Seq<char>,
    pub generics: Seq<TypeParamModel>,
    pub value: TypeModel,
}

impl View for ArtelTypeAliasDeclaration {
    type V = TypeAliasModel;

    open spec fn view(&self) -> TypeAliasModel {
        TypeAliasModel {
            alias: self.alias@,
            generics: type_params_model(self.generic_params),
            value: self.value@,
        }
    }
}

pub open spec fn type_alias_text(t: TypeAliasModel, ident_level: nat) -> Seq<char> {
    spaces(ident_level) + "тип "@ + t.alias + generics_text(t.generics) + " = "@ + type_text(t.value)
}

pub open spec fn type_alias_ready(t: TypeAliasModel, ident_level: nat) -> bool {
    &&& ident_level <= 100
    &&& type_params_ok(t.generics)
    &&& type_ok(t.value)
}

impl ArtelTypeAliasDeclaration {
    pub fn new(alias: Identifier, generic_params: GenericParams, value: Type) -> (r: Self)
        ensures
            r.alias == alias,
            r.generic_params == generic_params,
            r.value == value,
    {
        ArtelTypeAliasDeclaration { alias, generic_params, value }
    }
}

impl ArtelTypeAliasDeclaration {
    /// Whether the alias can be rendered at `ident_level`.
    pub fn can_render(&self, ident_level: usize) -> (r: bool)
        ensures
            r == type_alias_ready(self@, ident_level as nat),
    {
        ident_level <= 100 && type_params_can_render(&self.generic_params) && self.value.can_render()
    }
}

impl ArtelStr for ArtelTypeAliasDeclaration {
    open spec fn artel_ready(&self, ident_level: usize) -> bool {
        type_alias_ready(self@, ident_level as nat)
    }

    open spec fn artel_text(&self, ident_level: usize) -> Seq<char> {
        type_alias_text(self@, ident_level as nat)
    }

    fn artel_str(&self, ident_level: usize) -> (r: String) {
        let mut r = owned(indent(ident_level));
        r.append("тип ");
        r.append(self.alias.0.as_str());
        let g = generic_params_str(&self.generic_params);
        r.append(g.as_str());
        r.append(" = ");
        let v = self.value.render();
        r.append(v.as_str());
        r
    }
}

} // verus!
