//! Workflow nodes as the library sees them: a node is known by its type name
//! and the class of its implementation, and the media nodes hold or gather the image sources they resolve.
use vstd::prelude::*;

use crate::persistent::{
    string_list_get, string_list_items, string_list_len, string_list_new, string_list_push_back,
    string_list_remove,
};
use crate::text::{last_path_segment, last_path_segment_of, owned};

verus! {

/// The node implementations the editor and runner treat specially; every
/// other implementation is `Other`.
#[derive(Clone, Copy, Debug, PartialEq, Eq, Hash, Structural)]
pub enum NodeClass {
    Subgraph,
    Start,
    Finish,
    OutputNode,
    Preview,
    CommentNode,
    Select,
    Other,
}

/// A node of a workflow graph: the full type name of its implementation
/// (such as `aerie::workflow::nodes::Start`), and which of the special
/// implementations it is. The class is that of the implementation itself, so
/// another type that happens to share a special type's name is `Other`.
#[derive(Clone, Debug, PartialEq, Eq, Hash)]
pub struct WorkNode {
    pub node_type: String,
    pub class: NodeClass,
}

/// The kind of a node: the last `::` segment of its type name.
pub open spec fn node_kind(node_type: Seq<char>) -> Seq<char> {
    last_path_segment(node_type)
}

impl WorkNode {
    /// A node of the given type name and implementation class.
    pub fn new(node_type: String, class: NodeClass) -> (r: Self)
        ensures
            r.node_type@ == node_type@,
            r.class == class,
    {
        WorkNode { node_type, class }
    }

    /// The node's kind: the last `::` segment of its type name, or the whole
    /// name when it holds no `::`.
    pub fn kind(&self) -> (r: &str)
        ensures
            r@ == node_kind(self.node_type@),
    {
        last_path_segment_of(self.node_type.as_str())
    }

    /// A nested workflow.
    pub fn is_subgraph(&self) -> (r: bool)
        ensures
            r == (self.class == NodeClass::Subgraph),
    {
        self.class == NodeClass::Subgraph
    }

    /// The node a run starts from.
    pub fn is_start(&self) -> (r: bool)
        ensures
            r == (self.class == NodeClass::Start),
    {
        self.class == NodeClass::Start
    }

    /// The node a run ends at.
    pub fn is_finish(&self) -> (r: bool)
        ensures
            r == (self.class == NodeClass::Finish),
    {
        self.class == NodeClass::Finish
    }

    /// A node that shows a result.
    pub fn is_output(&self) -> (r: bool)
        ensures
            r == (self.class == NodeClass::OutputNode),
    {
        self.class == NodeClass::OutputNode
    }

    /// A node that previews a value.
    pub fn is_preview(&self) -> (r: bool)
        ensures
            r == (self.class == NodeClass::Preview),
    {
        self.class == NodeClass::Preview
    }

    /// A comment.
    pub fn is_comment(&self) -> (r: bool)
        ensures
            r == (self.class == NodeClass::CommentNode),
    {
        self.class == NodeClass::CommentNode
    }

    /// A node that may not be removed: a start or a finish.
    pub fn is_protected(&self) -> (r: bool)
        ensures
            r == (self.class == NodeClass::Start || self.class == NodeClass::Finish),
    {
        self.is_start() || self.is_finish()
    }

    /// A node that runs as soon as any input is ready (a selection).
    pub fn is_eager(&self) -> (r: bool)
        ensures
            r == (self.class == NodeClass::Select),
    {
        self.class == NodeClass::Select
    }
}

/// What a fetch node is given: one text or a list of texts.
#[derive(Clone, Debug, PartialEq, Eq)]
pub enum TextInput {
    Text(String),
    TextList(Vec<String>),
}

/// A node that fetches images from the URLs it is given.
#[derive(Clone, Copy, Debug, Default, PartialEq, Eq, Hash, Structural)]
pub struct FetchImages {}

/// The sources a fetch node resolves for an input.
pub open spec fn fetch_sources(input: Option<TextInput>) -> Seq<String> {
    match input {
        None => Seq::<String>::empty(),
        Some(TextInput::Text(t)) => seq![t],
        Some(TextInput::TextList(v)) => v@,
    }
}

impl FetchImages {
    /// The node's title.
    pub fn title(&self) -> (r: &'static str)
        ensures
            r@ == "Fetch Images"@,
    {
        "Fetch Images"
    }

    /// The image sources to resolve, in order: the one text, each text of a
    /// list, or none when nothing is connected.
    pub fn sources(&self, input: Option<TextInput>) -> (r: Vec<String>)
        ensures
            r@ == fetch_sources(input),
    {
        match input {
            None => Vec::new(),
            Some(TextInput::Text(t)) => {
                let mut v = Vec::new();
                v.push(t);
                v
            },
            Some(TextInput::TextList(v)) => v,
        }
    }
}

/// A node that holds images, as data URLs, in the workflow itself.
#[derive(Debug)]
pub struct LoadImages {
    images: im::Vector<String>,
}

impl LoadImages {
    /// The data URLs held, in order.
    pub closed spec fn images(&self) -> Seq<Seq<char>> {
        string_list_items(self.images)
    }

    /// A node holding no image.
    pub fn new() -> (r: Self)
        ensures
            r.images() == Seq::<Seq<char>>::empty(),
    {
        LoadImages { images: string_list_new() }
    }

    /// The node's title.
    pub fn title(&self) -> (r: &'static str)
        ensures
            r@ == "Images"@,
    {
        "Images"
    }

    /// How many images are held.
    pub fn len(&self) -> (r: usize)
        ensures
            r == self.images().len(),
    {
        string_list_len(&self.images)
    }

    /// Takes out the image at `index`; the others keep their order.
    pub fn remove_image(&mut self, index: usize) -> (r: String)
        requires
            index < old(self).images().len(),
        ensures
            r@ == old(self).images()[index as int],
            final(self).images() == old(self).images().remove(index as int),
    {
        string_list_remove(&mut self.images, index)
    }

    /// Appends new images after the held ones.
    pub fn add_images(&mut self, new_images: Vec<String>)
        ensures
            final(self).images() == old(self).images() + new_images@.map_values(|s: String| s@),
    {
        let ghost start = self.images();
        let mut i: usize = 0;
        while i < new_images.len()
            invariant
                i <= new_images@.len(),
                self.images() == start + new_images@.take(i as int).map_values(|s: String| s@),
            decreases new_images.len() - i,
        {
            let s = owned(new_images[i].as_str());
            string_list_push_back(&mut self.images, s);
            proof {
                assert(new_images@.take(i + 1).map_values(|s: String| s@) =~= new_images@.take(
                    i as int,
                ).map_values(|s: String| s@).push(new_images@[i as int]@));
            }
            i = i + 1;
        }
        proof {
            assert(new_images@.take(i as int) =~= new_images@);
        }
    }

    /// The held images, in order, to be resolved when the node runs.
    pub fn sources(&self) -> (r: Vec<String>)
        ensures
            r@.map_values(|s: String| s@) == self.images(),
    {
        let n = string_list_len(&self.images);
        let mut out: Vec<String> = Vec::new();
        let mut i: usize = 0;
        while i < n
            invariant
                n == self.images().len(),
                i <= n,
                out@.map_values(|s: String| s@) == self.images().take(i as int),
            decreases n - i,
        {
            let s = owned(string_list_get(&self.images, i).as_str());
            out.push(s);
            proof {
                assert(self.images().take(i + 1) =~= self.images().take(i as int).push(self.images()[i as int]));
                assert(out@.map_values(|s: String| s@) =~= self.images().take(i + 1));
            }
            i = i + 1;
        }
        proof {
            assert(self.images().take(n as int) =~= self.images());
        }
        out
    }
}

} // verus!
