//! Reading the values of a node of a configuration document.
//!
//! What is wrong with a node is said in a message.

use crate::document;
use crate::document::{Entry, Node, Value};
use crate::listing;
use crate::suggestions;
use crate::suggestions::unknown;
use crate::text;
use crate::text::same;
use vstd::prelude::*;

verus! {

/// A message with a name between backquotes.
pub open spec fn of_name(name: Seq<char>, rest: Seq<char>) -> Seq<char> {
    "`"@ + name + "`"@ + rest
}

pub(crate) fn about(name: &str, rest: &str) -> (r: String)
    ensures
        r@ == of_name(name@, rest@),
{
    let mut r: String = "`".to_owned();
    r.append(name);
    r.append("`");
    r.append(rest);
    r
}

/// The arguments among the entries of a node.
pub open spec fn positional(entries: Seq<document::EntryView>) -> Seq<document::ValueView>
    decreases entries.len(),
{
    if entries.len() == 0 {
        Seq::empty()
    } else if entries.last().name is None {
        positional(entries.drop_last()).push(entries.last().value)
    } else {
        positional(entries.drop_last())
    }
}

/// The value of the last property with a name.
pub open spec fn property(entries: Seq<document::EntryView>, name: Seq<char>) -> Option<
    document::ValueView,
>
    decreases entries.len(),
{
    if entries.len() == 0 {
        None
    } else if entries.last().name == Some(name) {
        Some(entries.last().value)
    } else {
        property(entries.drop_last(), name)
    }
}

/// What is wrong with the properties among the first `n` entries of a node: one that is not
/// allowed, or one that is there twice.
pub open spec fn properties_fault(
    entries: Seq<document::EntryView>,
    n: int,
    allowed: Seq<Seq<char>>,
) -> Option<Seq<char>>
    decreases n,
{
    if n <= 0 {
        None
    } else {
        match properties_fault(entries, n - 1, allowed) {
            Some(message) => Some(message),
            None => match entries[n - 1].name {
                None => None,
                Some(name) => if !allowed.contains(name) {
                    Some(suggestions::unknown_name("property"@, name, allowed))
                } else if exists|j: int|
                    0 <= j < n - 1 && (#[trigger] entries[j]).name == Some(name) {
                    Some("duplicate "@ + of_name(name, " property"@))
                } else {
                    None
                },
            },
        }
    }
}

impl document::NodeView {
    pub open spec fn arguments(self) -> Seq<document::ValueView> {
        positional(self.entries)
    }

    pub open spec fn property(self, name: Seq<char>) -> Option<document::ValueView> {
        property(self.entries, name)
    }

    pub open spec fn stray_property(self, allowed: Seq<Seq<char>>) -> Option<Seq<char>> {
        properties_fault(self.entries, self.entries.len() as int, allowed)
    }

    pub open spec fn stray_entry(self) -> Option<Seq<char>> {
        if self.entries.len() == 0 {
            None
        } else {
            Some(of_name(self.name, " does not accept values or properties"@))
        }
    }

    pub open spec fn stray_block(self) -> Option<Seq<char>> {
        if self.has_children {
            Some(of_name(self.name, " does not accept a child block"@))
        } else {
            None
        }
    }
}

/// The integer with 64 bits that a value is.
pub open spec fn integer(value: document::ValueView, label: Seq<char>) -> Result<i64, Seq<char>> {
    match value {
        document::ValueView::Integer(n) => if i64::MIN <= n <= i64::MAX {
            Ok(n as i64)
        } else {
            Err(of_name(label, " must be an integer"@))
        },
        _ => Err(of_name(label, " must be an integer"@)),
    }
}

/// The integer that is the only argument of a node.
pub open spec fn only_integer(node: document::NodeView, label: Seq<char>) -> Result<i64, Seq<char>> {
    match node.stray_property(Seq::empty()) {
        Some(message) => Err(message),
        None => match node.stray_block() {
            Some(message) => Err(message),
            None => if node.arguments().len() != 1 {
                Err(of_name(label, " requires one integer"@))
            } else {
                integer(node.arguments()[0], label)
            },
        },
    }
}

pub open spec fn only_u64(node: document::NodeView, label: Seq<char>) -> Result<u64, Seq<char>> {
    match only_integer(node, label) {
        Err(message) => Err(message),
        Ok(n) => if n >= 0 {
            Ok(n as u64)
        } else {
            Err(of_name(label, " must be non-negative"@))
        },
    }
}

pub open spec fn only_u32(node: document::NodeView, label: Seq<char>) -> Result<u32, Seq<char>> {
    match only_integer(node, label) {
        Err(message) => Err(message),
        Ok(n) => if 0 <= n <= u32::MAX {
            Ok(n as u32)
        } else {
            Err(of_name(label, " is out of range"@))
        },
    }
}

pub open spec fn text_property(node: document::NodeView, name: Seq<char>) -> Result<
    Option<Seq<char>>,
    Seq<char>,
> {
    match node.property(name) {
        None => Ok(None),
        Some(document::ValueView::Text(text)) => Ok(Some(text)),
        Some(_) => Err(of_name(name, " must be a string"@)),
    }
}

pub open spec fn integer_property(node: document::NodeView, name: Seq<char>) -> Result<
    Option<i64>,
    Seq<char>,
> {
    match node.property(name) {
        None => Ok(None),
        Some(value) => match integer(value, name) {
            Ok(n) => Ok(Some(n)),
            Err(message) => Err(message),
        },
    }
}

pub open spec fn index_property(node: document::NodeView, name: Seq<char>) -> Result<
    Option<usize>,
    Seq<char>,
> {
    match node.property(name) {
        None => Ok(None),
        Some(document::ValueView::Integer(n)) => if 0 <= n <= usize::MAX {
            Ok(Some(n as usize))
        } else {
            Err(of_name(name, " must be a non-negative integer"@))
        },
        Some(_) => Err(of_name(name, " must be a non-negative integer"@)),
    }
}

/// A truth value, or the text of one.
pub open spec fn truth(value: document::ValueView) -> Option<bool> {
    match value {
        document::ValueView::Bool(b) => Some(b),
        document::ValueView::Text(text) => if text == "true"@ {
            Some(true)
        } else if text == "false"@ {
            Some(false)
        } else {
            None
        },
        _ => None,
    }
}

pub open spec fn truth_property(node: document::NodeView, name: Seq<char>) -> Result<
    Option<bool>,
    Seq<char>,
> {
    match node.property(name) {
        None => Ok(None),
        Some(value) => match truth(value) {
            Some(b) => Ok(Some(b)),
            None => Err(of_name(name, " must be true or false"@)),
        },
    }
}

/// The text that is the first argument of a node.
pub open spec fn first_text(node: document::NodeView, label: Seq<char>) -> Result<
    Seq<char>,
    Seq<char>,
> {
    if node.arguments().len() > 0 {
        match node.arguments()[0] {
            document::ValueView::Text(text) => Ok(text),
            _ => Err(of_name(label, " requires a string"@)),
        }
    } else {
        Err(of_name(label, " requires a string"@))
    }
}

/// The text that is the only argument of a node.
pub open spec fn only_text(node: document::NodeView, label: Seq<char>) -> Result<
    Seq<char>,
    Seq<char>,
> {
    match node.stray_property(Seq::empty()) {
        Some(message) => Err(message),
        None => match first_text(node, label) {
            Err(message) => Err(message),
            Ok(text) => if node.arguments().len() == 1 {
                Ok(text)
            } else {
                Err(of_name(label, " requires exactly one string"@))
            },
        },
    }
}

/// The texts that values are, if all are.
pub open spec fn all_texts(values: Seq<document::ValueView>) -> Option<Seq<Seq<char>>>
    decreases values.len(),
{
    if values.len() == 0 {
        Some(Seq::empty())
    } else {
        match (all_texts(values.drop_last()), values.last()) {
            (Some(list), document::ValueView::Text(text)) => Some(list.push(text)),
            _ => None,
        }
    }
}

/// The arguments of a list of borrowed values.
pub open spec fn borrowed(list: Seq<&Value>) -> Seq<document::ValueView> {
    Seq::new(list.len(), |i: int| list[i]@)
}

impl Node {
    pub(crate) fn positional(&self) -> (r: Vec<&Value>)
        ensures
            borrowed(r@) == self@.arguments(),
    {
        let mut list: Vec<&Value> = Vec::new();
        let ghost all = self@.entries;
        let mut i: usize = 0;
        assert(borrowed(list@) =~= positional(all.take(0)));
        while i < self.entries.len()
            invariant
                i <= self.entries@.len(),
                all == self@.entries,
                borrowed(list@) == positional(all.take(i as int)),
            decreases self.entries@.len() - i,
        {
            proof {
                assert(all.take(i + 1).drop_last() =~= all.take(i as int));
                assert(all.take(i + 1).last() == self.entries@[i as int]@);
            }
            if self.entries[i].name.is_none() {
                let ghost before = borrowed(list@);
                list.push(&self.entries[i].value);
                assert(borrowed(list@) =~= before.push(self.entries@[i as int]@.value));
            }
            i = i + 1;
        }
        assert(all.take(i as int) =~= all);
        list
    }

    pub(crate) fn get(&self, name: &str) -> (r: Option<&Value>)
        ensures
            match r {
                Some(value) => self@.property(name@) == Some(value@),
                None => self@.property(name@) is None,
            },
    {
        let wanted: String = name.to_owned();
        let ghost all = self@.entries;
        let mut i: usize = self.entries.len();
        assert(all.take(i as int) =~= all);
        while i > 0
            invariant
                i <= self.entries@.len(),
                all == self@.entries,
                wanted@ == name@,
                property(all, name@) == property(all.take(i as int), name@),
            decreases i,
        {
            proof {
                assert(all.take(i as int).drop_last() =~= all.take(i - 1));
                assert(all.take(i as int).last() == self.entries@[i - 1]@);
            }
            if let Some(candidate) = &self.entries[i - 1].name {
                if same(candidate, &wanted) {
                    return Some(&self.entries[i - 1].value);
                }
            }
            i = i - 1;
        }
        None
    }

    pub(crate) fn require_properties(&self, allowed: &[&str]) -> (r: Result<(), String>)
        ensures
            match self@.stray_property(suggestions::texts(allowed@)) {
                None => r is Ok,
                Some(message) => r is Err && r->Err_0@ == message,
            },
    {
        let ghost names = suggestions::texts(allowed@);
        let ghost all = self@.entries;
        let mut i: usize = 0;
        while i < self.entries.len()
            invariant
                i <= self.entries@.len(),
                all == self@.entries,
                names == suggestions::texts(allowed@),
                properties_fault(all, i as int, names) is None,
            decreases self.entries@.len() - i,
        {
            assert(all[i as int] == self.entries@[i as int]@);
            if let Some(name) = &self.entries[i].name {
                proof {
                    if properties_fault(all, i + 1, names) is Some {
                        properties_fault_extends(all, i + 1, all.len() as int, names);
                    }
                }
                if !is_listed(name, allowed) {
                    return Err(unknown("property", name.as_str(), allowed));
                }
                if is_named_before(&self.entries, i, name) {
                    let mut message: String = "duplicate ".to_owned();
                    message.append(about(name.as_str(), " property").as_str());
                    return Err(message);
                }
            }
            i = i + 1;
        }
        Ok(())
    }

    pub(crate) fn require_no_entries(&self) -> (r: Result<(), String>)
        ensures
            match self@.stray_entry() {
                None => r is Ok,
                Some(message) => r is Err && r->Err_0@ == message,
            },
    {
        if self.entries.len() == 0 {
            Ok(())
        } else {
            Err(about(self.name.as_str(), " does not accept values or properties"))
        }
    }

    pub(crate) fn require_no_children(&self) -> (r: Result<(), String>)
        ensures
            match self@.stray_block() {
                None => r is Ok,
                Some(message) => r is Err && r->Err_0@ == message,
            },
    {
        if self.has_children {
            Err(about(self.name.as_str(), " does not accept a child block"))
        } else {
            Ok(())
        }
    }

    fn require_nothing_named(&self) -> (r: Result<(), String>)
        ensures
            match self@.stray_property(Seq::empty()) {
                None => r is Ok,
                Some(message) => r is Err && r->Err_0@ == message,
            },
    {
        let none: [&str; 0] = [];
        assert(suggestions::texts(none@) =~= Seq::empty());
        self.require_properties(&none)
    }

    pub(crate) fn one_i64(&self, label: &str) -> (r: Result<i64, String>)
        ensures
            match only_integer(self@, label@) {
                Ok(n) => r == Ok::<i64, String>(n),
                Err(message) => r is Err && r->Err_0@ == message,
            },
    {
        if let Err(message) = self.require_nothing_named() {
            return Err(message);
        }
        if let Err(message) = self.require_no_children() {
            return Err(message);
        }
        let args: Vec<&Value> = self.positional();
        assert(borrowed(args@).len() == args@.len());
        if args.len() != 1 {
            return Err(about(label, " requires one integer"));
        }
        assert(borrowed(args@)[0] == args@[0]@);
        value_i64(args[0], label)
    }

    pub(crate) fn one_u64(&self, label: &str) -> (r: Result<u64, String>)
        ensures
            match only_u64(self@, label@) {
                Ok(n) => r == Ok::<u64, String>(n),
                Err(message) => r is Err && r->Err_0@ == message,
            },
    {
        match self.one_i64(label) {
            Err(message) => Err(message),
            Ok(n) => if n >= 0 {
                Ok(n as u64)
            } else {
                Err(about(label, " must be non-negative"))
            },
        }
    }

    pub(crate) fn one_u32(&self, label: &str) -> (r: Result<u32, String>)
        ensures
            match only_u32(self@, label@) {
                Ok(n) => r == Ok::<u32, String>(n),
                Err(message) => r is Err && r->Err_0@ == message,
            },
    {
        match self.one_i64(label) {
            Err(message) => Err(message),
            Ok(n) => if 0 <= n && n <= 0xffff_ffff {
                Ok(n as u32)
            } else {
                Err(about(label, " is out of range"))
            },
        }
    }

    pub(crate) fn property_string(&self, name: &str) -> (r: Result<Option<String>, String>)
        ensures
            match text_property(self@, name@) {
                Ok(found) => r is Ok && text::characters(r->Ok_0) == found,
                Err(message) => r is Err && r->Err_0@ == message,
            },
    {
        match self.get(name) {
            None => Ok(None),
            Some(Value::Text(text)) => Ok(Some(text.clone())),
            Some(_) => Err(about(name, " must be a string")),
        }
    }

    pub(crate) fn property_i64(&self, name: &str) -> (r: Result<Option<i64>, String>)
        ensures
            match integer_property(self@, name@) {
                Ok(found) => r == Ok::<Option<i64>, String>(found),
                Err(message) => r is Err && r->Err_0@ == message,
            },
    {
        match self.get(name) {
            None => Ok(None),
            Some(value) => match value_i64(value, name) {
                Ok(n) => Ok(Some(n)),
                Err(message) => Err(message),
            },
        }
    }

    pub(crate) fn property_usize(&self, name: &str) -> (r: Result<Option<usize>, String>)
        ensures
            match index_property(self@, name@) {
                Ok(found) => r == Ok::<Option<usize>, String>(found),
                Err(message) => r is Err && r->Err_0@ == message,
            },
    {
        match self.get(name) {
            None => Ok(None),
            Some(Value::Integer(n)) => if 0 <= *n && *n <= usize::MAX as i128 {
                Ok(Some(*n as usize))
            } else {
                Err(about(name, " must be a non-negative integer"))
            },
            Some(_) => Err(about(name, " must be a non-negative integer")),
        }
    }

    pub(crate) fn property_bool(&self, name: &str) -> (r: Result<Option<bool>, String>)
        ensures
            match truth_property(self@, name@) {
                Ok(found) => r == Ok::<Option<bool>, String>(found),
                Err(message) => r is Err && r->Err_0@ == message,
            },
    {
        let value: &Value = match self.get(name) {
            None => {
                return Ok(None);
            },
            Some(value) => value,
        };
        let found: Option<bool> = match value {
            Value::Bool(b) => Some(*b),
            Value::Text(text) => if same(text, &"true".to_owned()) {
                Some(true)
            } else if same(text, &"false".to_owned()) {
                Some(false)
            } else {
                None
            },
            _ => None,
        };
        match found {
            Some(b) => Ok(Some(b)),
            None => Err(about(name, " must be true or false")),
        }
    }

    pub(crate) fn first_string(&self, label: &str) -> (r: Result<String, String>)
        ensures
            match first_text(self@, label@) {
                Ok(text) => r is Ok && r->Ok_0@ == text,
                Err(message) => r is Err && r->Err_0@ == message,
            },
    {
        let args: Vec<&Value> = self.positional();
        assert(borrowed(args@).len() == args@.len());
        if args.len() > 0 {
            assert(borrowed(args@)[0] == args@[0]@);
            if let Value::Text(text) = args[0] {
                return Ok(text.clone());
            }
        }
        Err(about(label, " requires a string"))
    }

    pub(crate) fn one_string(&self, label: &str) -> (r: Result<String, String>)
        ensures
            match only_text(self@, label@) {
                Ok(text) => r is Ok && r->Ok_0@ == text,
                Err(message) => r is Err && r->Err_0@ == message,
            },
    {
        if let Err(message) = self.require_nothing_named() {
            return Err(message);
        }
        match self.first_string(label) {
            Err(message) => Err(message),
            Ok(text) => {
                let args: Vec<&Value> = self.positional();
                assert(borrowed(args@).len() == args@.len());
                if args.len() == 1 {
                    Ok(text)
                } else {
                    Err(about(label, " requires exactly one string"))
                }
            },
        }
    }

    pub(crate) fn positional_strings(&self) -> (r: Option<Vec<String>>)
        ensures
            match all_texts(self@.arguments()) {
                Some(list) => r is Some && listing::each(r->0@) == list,
                None => r is None,
            },
    {
        let args: Vec<&Value> = self.positional();
        let ghost all = self@.arguments();
        let mut list: Vec<String> = Vec::new();
        let mut i: usize = 0;
        assert(listing::each(list@) =~= Seq::<Seq<char>>::empty());
        assert(all.take(0) =~= Seq::empty());
        assert(borrowed(args@).len() == args@.len());
        while i < args.len()
            invariant
                i <= args@.len() == all.len(),
                all == borrowed(args@),
                all == self@.arguments(),
                all_texts(all.take(i as int)) == Some(listing::each(list@)),
            decreases args@.len() - i,
        {
            proof {
                assert(all.take(i + 1).drop_last() =~= all.take(i as int));
                assert(all.take(i + 1).last() == args@[i as int]@);
                if all_texts(all.take(i + 1)) is None {
                    all_texts_extends(all, i + 1);
                }
            }
            match args[i] {
                Value::Text(text) => {
                    let copy: String = text.clone();
                    proof {
                        listing::each_push(list@, copy);
                    }
                    list.push(copy);
                },
                _ => {
                    return None;
                },
            }
            i = i + 1;
        }
        assert(all.take(i as int) =~= all);
        Some(list)
    }
}

proof fn all_texts_extends(values: Seq<document::ValueView>, n: int)
    requires
        0 <= n <= values.len(),
        all_texts(values.take(n)) is None,
    ensures
        all_texts(values) is None,
    decreases values.len() - n,
{
    if n < values.len() {
        assert(values.take(n + 1).drop_last() =~= values.take(n));
        all_texts_extends(values, n + 1);
    } else {
        assert(values.take(n) =~= values);
    }
}

proof fn properties_fault_extends(
    entries: Seq<document::EntryView>,
    n: int,
    m: int,
    allowed: Seq<Seq<char>>,
)
    requires
        n <= m,
        properties_fault(entries, n, allowed) is Some,
    ensures
        properties_fault(entries, m, allowed) == properties_fault(entries, n, allowed),
    decreases m,
{
    if n < m {
        properties_fault_extends(entries, n, m - 1, allowed);
    }
}

fn is_listed(name: &String, list: &[&str]) -> (r: bool)
    ensures
        r == suggestions::texts(list@).contains(name@),
{
    let ghost all = suggestions::texts(list@);
    let mut i: usize = 0;
    while i < list.len()
        invariant
            i <= list@.len(),
            all == suggestions::texts(list@),
            forall|j: int| 0 <= j < i ==> all[j] != name@,
        decreases list@.len() - i,
    {
        assert(all[i as int] == list@[i as int]@);
        if same(name, &list[i].to_owned()) {
            return true;
        }
        i = i + 1;
    }
    false
}

fn is_named_before(entries: &Vec<Entry>, n: usize, name: &String) -> (r: bool)
    requires
        n <= entries@.len(),
    ensures
        r == exists|j: int|
            0 <= j < n && (#[trigger] listing::each(entries@)[j]).name == Some(name@),
{
    let ghost all = listing::each(entries@);
    let mut i: usize = 0;
    while i < n
        invariant
            i <= n <= entries@.len(),
            all == listing::each(entries@),
            forall|j: int| 0 <= j < i ==> (#[trigger] all[j]).name != Some(name@),
        decreases n - i,
    {
        assert(all[i as int] == entries@[i as int]@);
        if let Some(other) = &entries[i].name {
            if same(other, name) {
                return true;
            }
        }
        i = i + 1;
    }
    false
}

pub(crate) fn value_i64(value: &Value, label: &str) -> (r: Result<i64, String>)
    ensures
        match integer(value@, label@) {
            Ok(n) => r == Ok::<i64, String>(n),
            Err(message) => r is Err && r->Err_0@ == message,
        },
{
    if let Value::Integer(n) = value {
        if i64::MIN as i128 <= *n && *n <= i64::MAX as i128 {
            return Ok(*n as i64);
        }
    }
    Err(about(label, " must be an integer"))
}

} // verus!
