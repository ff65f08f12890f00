use vstd::prelude::*;

verus! {

/// What a YAML node is, mathematically: a scalar, a sequence of nodes, or a
/// mapping kept as its entries in document order.
pub enum YamlV {
    Null,
    Bool(bool),
    /// A number, held as its decimal text.
    Number(Seq<char>),
    Str(Seq<char>),
    List(Seq<YamlV>),
    Mapping(Seq<(YamlV, YamlV)>),
}

/// A YAML node as the parser walks it.
#[derive(Debug)]
pub enum Node {
    Null,
    Bool(bool),
    /// A number, held as its decimal text.
    Number(String),
    Str(String),
    List(Vec<Node>),
    Mapping(Vec<(Node, Node)>),
}

impl View for Node {
    type V = YamlV;

    open spec fn view(&self) -> YamlV
        decreases self,
    {
        match self {
            Node::Null => YamlV::Null,
            Node::Bool(b) => YamlV::Bool(*b),
            Node::Number(s) => YamlV::Number(s@),
            Node::Str(s) => YamlV::Str(s@),
            Node::List(items) => YamlV::List(
                Seq::new(
                    items@.len(),
                    |i: int|
                        if 0 <= i < items@.len() {
                            items@[i].view()
                        } else {
                            YamlV::Null
                        },
                ),
            ),
            Node::Mapping(entries) => YamlV::Mapping(
                Seq::new(
                    entries@.len(),
                    |i: int|
                        if 0 <= i < entries@.len() {
                            (entries@[i].0.view(), entries@[i].1.view())
                        } else {
                            (YamlV::Null, YamlV::Null)
                        },
                ),
            ),
        }
    }
}

/// The entries of a mapping node, as views.
pub proof fn lemma_mapping_entries(n: &Node)
    requires
        n is Mapping,
    ensures
        n@ is Mapping,
        n@->Mapping_0.len() == n->Mapping_0@.len(),
        forall|i: int|
            0 <= i < n->Mapping_0@.len() ==> #[trigger] n@->Mapping_0[i] == (
            n->Mapping_0@[i].0@,
            n->Mapping_0@[i].1@,
        ),
{
    reveal_with_fuel(<Node as View>::view, 2);
}

/// The items of a sequence node, as views.
pub proof fn lemma_list_items(n: &Node)
    requires
        n is List,
    ensures
        n@ is List,
        n@->List_0.len() == n->List_0@.len(),
        forall|i: int|
            0 <= i < n->List_0@.len() ==> #[trigger] n@->List_0[i] == n->List_0@[i]@,
{
}

/// The text of a scalar that can stand where a string is wanted: a string as
/// it is, a number as its digits, a boolean as `true` or `false`.
pub open spec fn scalar_text(v: YamlV) -> Option<Seq<char>> {
    match v {
        YamlV::Str(s) => Some(s),
        YamlV::Number(s) => Some(s),
        YamlV::Bool(b) => Some(if b { "true"@ } else { "false"@ }),
        _ => None,
    }
}

/// Coerces a scalar node to its text; `None` for null, sequences and mappings.
pub fn scalar_to_text(n: &Node) -> (r: Option<String>)
    ensures
        match r {
            Some(s) => scalar_text(n@) == Some(s@),
            None => scalar_text(n@) is None,
        },
{
    match n {
        Node::Str(s) => Some(s.clone()),
        Node::Number(s) => Some(s.clone()),
        Node::Bool(b) => Some(if *b { "true".to_owned() } else { "false".to_owned() }),
        _ => None,
    }
}

/// Whether `k` holds exactly the characters of `lit`.
pub fn text_is(k: &String, lit: &str) -> (r: bool)
    ensures
        r == (k@ == lit@),
{
    *k == lit.to_owned()
}

} // verus!
