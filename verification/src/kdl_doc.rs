//! KDL documents as plain values, and the lookups that the configuration
//! parsers make on their nodes.
use vstd::prelude::*;
use crate::text::eq_str;
use crate::variables::opt_view;

verus! {

/// The value of a KDL entry.
#[derive(Debug)]
pub enum KdlScalar {
    Str(String),
    Int(i128),
    /// A floating-point number (its value is not read by the parsers).
    Float,
    Bool(bool),
    Null,
}

/// A KDL entry: a positional argument (no name) or a property.
#[derive(Debug)]
pub struct KdlEntryData {
    pub name: Option<String>,
    pub value: KdlScalar,
}

/// A KDL node: its name, its entries in order, and its children block.
#[derive(Debug)]
pub struct KdlNodeData {
    pub name: String,
    pub entries: Vec<KdlEntryData>,
    pub children: Option<Vec<KdlNodeData>>,
}

pub open spec fn entry_string(e: KdlEntryData) -> Option<Seq<char>> {
    match e.value {
        KdlScalar::Str(s) => Some(s@),
        _ => None,
    }
}

/// Index of the first positional argument at or after `i`.
pub open spec fn first_arg_from(es: Seq<KdlEntryData>, i: int) -> Option<int>
    decreases es.len() - i,
{
    if i < 0 || i >= es.len() {
        None
    } else if es[i].name is None {
        Some(i)
    } else {
        first_arg_from(es, i + 1)
    }
}

/// The first positional argument, if it is a string.
pub open spec fn first_string_arg(n: KdlNodeData) -> Option<Seq<char>> {
    match first_arg_from(n.entries@, 0) {
        Some(i) => entry_string(n.entries@[i]),
        None => None,
    }
}

/// All positional arguments that are strings, in order.
pub open spec fn string_args(es: Seq<KdlEntryData>) -> Seq<Seq<char>>
    decreases es.len(),
{
    if es.len() == 0 {
        Seq::empty()
    } else {
        let r = string_args(es.drop_last());
        match (es.last().name, entry_string(es.last())) {
            (None, Some(s)) => r.push(s),
            _ => r,
        }
    }
}

/// Index of the last property named `key` (the one that `KdlNode::get` finds).
pub open spec fn prop_index(es: Seq<KdlEntryData>, key: Seq<char>) -> Option<int>
    decreases es.len(),
{
    if es.len() == 0 {
        None
    } else if opt_view(es.last().name) == Some(key) {
        Some(es.len() - 1)
    } else {
        prop_index(es.drop_last(), key)
    }
}

pub open spec fn string_prop(n: KdlNodeData, key: Seq<char>) -> Option<Seq<char>> {
    match prop_index(n.entries@, key) {
        Some(i) => entry_string(n.entries@[i]),
        None => None,
    }
}

pub open spec fn bool_prop(n: KdlNodeData, key: Seq<char>) -> Option<bool> {
    match prop_index(n.entries@, key) {
        Some(i) => match n.entries@[i].value {
            KdlScalar::Bool(b) => Some(b),
            _ => None,
        },
        None => None,
    }
}

/// The string values of all properties named `key`, in order.
pub open spec fn named_strings(es: Seq<KdlEntryData>, key: Seq<char>) -> Seq<Seq<char>>
    decreases es.len(),
{
    if es.len() == 0 {
        Seq::empty()
    } else {
        let r = named_strings(es.drop_last(), key);
        if opt_view(es.last().name) == Some(key) {
            match entry_string(es.last()) {
                Some(s) => r.push(s),
                None => r,
            }
        } else {
            r
        }
    }
}

/// Index of the first child named `key` at or after `i`.
pub open spec fn child_from(cs: Seq<KdlNodeData>, key: Seq<char>, i: int) -> Option<int>
    decreases cs.len() - i,
{
    if i < 0 || i >= cs.len() {
        None
    } else if cs[i].name@ == key {
        Some(i)
    } else {
        child_from(cs, key, i + 1)
    }
}

/// A list property: the repeated properties `key="a" key="b"`, or else the
/// string arguments of the first child named `key`.
pub open spec fn string_list_prop(n: KdlNodeData, key: Seq<char>) -> Seq<Seq<char>> {
    let direct = named_strings(n.entries@, key);
    if direct.len() > 0 {
        direct
    } else {
        match n.children {
            Some(cs) => match child_from(cs@, key, 0) {
                Some(i) => string_args(cs@[i].entries@),
                None => Seq::empty(),
            },
            None => Seq::empty(),
        }
    }
}

fn entry_string_exec(e: &KdlEntryData) -> (r: Option<String>)
    ensures
        opt_view(r) == entry_string(*e),
{
    match &e.value {
        KdlScalar::Str(s) => Some(s.clone()),
        _ => None,
    }
}

/// The first positional argument, if it is a string.
pub fn get_first_string_arg(node: &KdlNodeData) -> (r: Option<String>)
    ensures
        opt_view(r) == first_string_arg(*node),
{
    let es = &node.entries;
    let mut i: usize = 0;
    while i < es.len()
        invariant
            i <= es.len(),
            es@ == node.entries@,
            first_arg_from(es@, 0) == first_arg_from(es@, i as int),
        decreases es.len() - i,
    {
        if es[i].name.is_none() {
            assert(first_arg_from(es@, i as int) == Some(i as int));
            assert(es@[i as int] == node.entries@[i as int]);
            let r = entry_string_exec(&es[i]);
            assert(first_string_arg(*node) == entry_string(node.entries@[i as int]));
            return r;
        }
        i = i + 1;
    }
    None
}

/// All positional string arguments.
pub fn get_all_string_args(node: &KdlNodeData) -> (r: Vec<String>)
    ensures
        r@.map_values(|s: String| s@) == string_args(node.entries@),
{
    let es = &node.entries;
    let mut out: Vec<String> = Vec::new();
    let mut i: usize = 0;
    while i < es.len()
        invariant
            i <= es.len(),
            out@.map_values(|s: String| s@) == string_args(es@.take(i as int)),
        decreases es.len() - i,
    {
        assert(es@.take(i + 1).drop_last() =~= es@.take(i as int));
        let ghost old_out = out@;
        if es[i].name.is_none() {
            if let Some(s) = entry_string_exec(&es[i]) {
                out.push(s);
                assert(out@.map_values(|s: String| s@) =~= old_out.map_values(|s: String| s@).push(
                    s@,
                ));
            }
        }
        i = i + 1;
    }
    assert(es@.take(i as int) =~= es@);
    out
}

fn name_is(name: &Option<String>, key: &str) -> (b: bool)
    ensures
        b == (opt_view(*name) == Some(key@)),
{
    match name {
        Some(n) => eq_str(crate::text::chars_of(n.as_str()).as_slice(), key),
        None => false,
    }
}

fn prop_index_exec(es: &Vec<KdlEntryData>, key: &str) -> (r: Option<usize>)
    ensures
        match r {
            Some(i) => prop_index(es@, key@) == Some(i as int) && i < es@.len(),
            None => prop_index(es@, key@) is None,
        },
{
    let mut i = es.len();
    assert(es@.take(i as int) =~= es@);
    while i > 0
        invariant
            i <= es.len(),
            prop_index(es@, key@) == prop_index(es@.take(i as int), key@),
        decreases i,
    {
        assert(es@.take(i as int).drop_last() =~= es@.take(i - 1));
        if name_is(&es[i - 1].name, key) {
            assert(es@.take(i as int).last() == es@[i - 1]);
            return Some(i - 1);
        }
        i = i - 1;
    }
    None
}

/// The string value of the last property named `key`.
pub fn get_string_prop(node: &KdlNodeData, key: &str) -> (r: Option<String>)
    ensures
        opt_view(r) == string_prop(*node, key@),
{
    assert(node.entries@.take(node.entries@.len() as int) =~= node.entries@);
    match prop_index_exec(&node.entries, key) {
        Some(i) => entry_string_exec(&node.entries[i]),
        None => None,
    }
}

/// The boolean value of the last property named `key`.
pub fn get_bool_prop(node: &KdlNodeData, key: &str) -> (r: Option<bool>)
    ensures
        r == bool_prop(*node, key@),
{
    assert(node.entries@.take(node.entries@.len() as int) =~= node.entries@);
    match prop_index_exec(&node.entries, key) {
        Some(i) => match &node.entries[i].value {
            KdlScalar::Bool(b) => Some(*b),
            _ => None,
        },
        None => None,
    }
}

/// A list property, from repeated properties or from a child block.
pub fn get_string_list_prop(node: &KdlNodeData, key: &str) -> (r: Vec<String>)
    ensures
        r@.map_values(|s: String| s@) == string_list_prop(*node, key@),
{
    let es = &node.entries;
    let mut out: Vec<String> = Vec::new();
    let mut i: usize = 0;
    while i < es.len()
        invariant
            i <= es.len(),
            out@.map_values(|s: String| s@) == named_strings(es@.take(i as int), key@),
        decreases es.len() - i,
    {
        assert(es@.take(i + 1).drop_last() =~= es@.take(i as int));
        let ghost old_out = out@;
        if name_is(&es[i].name, key) {
            if let Some(s) = entry_string_exec(&es[i]) {
                out.push(s);
                assert(out@.map_values(|s: String| s@) =~= old_out.map_values(|s: String| s@).push(
                    s@,
                ));
            }
        }
        i = i + 1;
    }
    assert(es@.take(i as int) =~= es@);
    if out.len() > 0 {
        return out;
    }
    match &node.children {
        Some(cs) => {
            let mut j: usize = 0;
            while j < cs.len()
                invariant
                    j <= cs.len(),
                    node.children == Some(*cs),
                    named_strings(node.entries@, key@).len() == 0,
                    child_from(cs@, key@, 0) == child_from(cs@, key@, j as int),
                decreases cs.len() - j,
            {
                if eq_str(crate::text::chars_of(cs[j].name.as_str()).as_slice(), key) {
                    assert(child_from(cs@, key@, j as int) == Some(j as int));
                    let r = get_all_string_args(&cs[j]);
                    assert(named_strings(node.entries@, key@).len() == 0);
                    assert(node.children == Some(*cs));
                    assert(string_list_prop(*node, key@) == string_args(cs@[j as int].entries@));
                    return r;
                }
                j = j + 1;
            }
            Vec::new()
        },
        None => Vec::new(),
    }
}

} // verus!
