//! Change payloads: the sub-structure carried by an addition, a deletion or
//! a modification.  A closed union over everything a change can carry, so
//! that contracts can speak of payloads exactly.

use vstd::prelude::*;
use crate::document::{
    MethodView, ParameterView, PropertyView, RequestView, ResourceView, ResponseView, SchemaView,
};
use crate::document::{Method, Parameter, Property, Request, Resource, Response, Schema};
use crate::document::{clone_method_map, clone_parameter_map, clone_property_map, clone_resource_map, clone_schema_map};
use crate::text::clone_str_vec;

verus! {

/// The value carried by one change.
pub enum ChangeValue {
    Str(String),
    Flag(bool),
    StrList(Vec<String>),
    Request(Request),
    Response(Response),
    Schema(Schema),
    SchemaMap(Vec<(String, Schema)>),
    Property(Property),
    PropertyMap(Vec<(String, Property)>),
    Resource(Resource),
    ResourceMap(Vec<(String, Resource)>),
    Method(Method),
    MethodMap(Vec<(String, Method)>),
    Parameter(Parameter),
    ParameterMap(Vec<(String, Parameter)>),
}

/// The mathematical view of a change payload.
#[verifier::ext_equal]
pub enum ChangeValueView {
    Str(Seq<char>),
    Flag(bool),
    StrList(Seq<Seq<char>>),
    Request(RequestView),
    Response(ResponseView),
    Schema(SchemaView),
    SchemaMap(Seq<(Seq<char>, SchemaView)>),
    Property(PropertyView),
    PropertyMap(Seq<(Seq<char>, PropertyView)>),
    Resource(ResourceView),
    ResourceMap(Seq<(Seq<char>, ResourceView)>),
    Method(MethodView),
    MethodMap(Seq<(Seq<char>, MethodView)>),
    Parameter(ParameterView),
    ParameterMap(Seq<(Seq<char>, ParameterView)>),
}

impl DeepView for ChangeValue {
    type V = ChangeValueView;

    open spec fn deep_view(&self) -> ChangeValueView {
        match self {
            ChangeValue::Str(s) => ChangeValueView::Str(s.deep_view()),
            ChangeValue::Flag(b) => ChangeValueView::Flag(*b),
            ChangeValue::StrList(v) => ChangeValueView::StrList(v.deep_view()),
            ChangeValue::Request(r) => ChangeValueView::Request(r.deep_view()),
            ChangeValue::Response(r) => ChangeValueView::Response(r.deep_view()),
            ChangeValue::Schema(s) => ChangeValueView::Schema(s.deep_view()),
            ChangeValue::SchemaMap(m) => ChangeValueView::SchemaMap(m.deep_view()),
            ChangeValue::Property(p) => ChangeValueView::Property(p.deep_view()),
            ChangeValue::PropertyMap(m) => ChangeValueView::PropertyMap(m.deep_view()),
            ChangeValue::Resource(r) => ChangeValueView::Resource(r.deep_view()),
            ChangeValue::ResourceMap(m) => ChangeValueView::ResourceMap(m.deep_view()),
            ChangeValue::Method(m) => ChangeValueView::Method(m.deep_view()),
            ChangeValue::MethodMap(m) => ChangeValueView::MethodMap(m.deep_view()),
            ChangeValue::Parameter(p) => ChangeValueView::Parameter(p.deep_view()),
            ChangeValue::ParameterMap(m) => ChangeValueView::ParameterMap(m.deep_view()),
        }
    }
}

impl Clone for ChangeValue {
    fn clone(&self) -> (r: Self)
        ensures
            r.deep_view() == self.deep_view(),
    {
        match self {
            ChangeValue::Str(s) => ChangeValue::Str(s.clone()),
            ChangeValue::Flag(b) => ChangeValue::Flag(*b),
            ChangeValue::StrList(v) => ChangeValue::StrList(clone_str_vec(v)),
            ChangeValue::Request(r) => ChangeValue::Request(r.clone()),
            ChangeValue::Response(r) => ChangeValue::Response(r.clone()),
            ChangeValue::Schema(s) => ChangeValue::Schema(s.clone()),
            ChangeValue::SchemaMap(m) => ChangeValue::SchemaMap(clone_schema_map(m)),
            ChangeValue::Property(p) => ChangeValue::Property(p.clone()),
            ChangeValue::PropertyMap(m) => ChangeValue::PropertyMap(clone_property_map(m)),
            ChangeValue::Resource(r) => ChangeValue::Resource(r.clone()),
            ChangeValue::ResourceMap(m) => ChangeValue::ResourceMap(clone_resource_map(m)),
            ChangeValue::Method(m) => ChangeValue::Method(m.clone()),
            ChangeValue::MethodMap(m) => ChangeValue::MethodMap(clone_method_map(m)),
            ChangeValue::Parameter(p) => ChangeValue::Parameter(p.clone()),
            ChangeValue::ParameterMap(m) => ChangeValue::ParameterMap(clone_parameter_map(m)),
        }
    }
}

/// A fresh copy of an optional change payload.
pub fn clone_opt_value(a: &Option<ChangeValue>) -> (r: Option<ChangeValue>)
    ensures
        r.deep_view() == a.deep_view(),
{
    match a {
        Some(v) => Some(v.clone()),
        None => None,
    }
}

} // verus!
