//! The specification document and the merge of one routing element's
//! contribution into it.

use vstd::prelude::*;

use crate::assoc::{map_of, AssocMap, MapKey};
use paperclip_core::v2::models::{DefaultOperationRaw, DefaultSchemaRaw, SecurityScheme};

verus! {

/// An HTTP method under which a path can hold an operation.
#[derive(Clone, Copy, Debug, PartialEq, Eq, Structural)]
pub enum Method {
    Get,
    Put,
    Post,
    Delete,
    Options,
    Head,
    Patch,
}

impl View for Method {
    type V = Method;

    open spec fn view(&self) -> Method {
        *self
    }
}

impl MapKey for Method {
    fn same_key(&self, other: &Self) -> (r: bool) {
        *self == *other
    }
}

/// The operations of one path, by method.
pub struct PathItem {
    pub methods: AssocMap<Method, DefaultOperationRaw>,
}

impl View for PathItem {
    type V = Map<Method, DefaultOperationRaw>;

    open spec fn view(&self) -> Map<Method, DefaultOperationRaw> {
        self.methods@
    }
}

impl PathItem {
    pub open spec fn wf(&self) -> bool {
        self.methods.wf()
    }

    /// A path item without operations.
    pub fn new() -> (r: Self)
        ensures
            r.wf(),
            r@ == Map::<Method, DefaultOperationRaw>::empty(),
    {
        PathItem { methods: AssocMap::new() }
    }
}

/// What the document is: paths to methods to operations, schema names to
/// schemas, security scheme names to security schemes.
pub struct ApiView {
    pub paths: Map<Seq<char>, Map<Method, DefaultOperationRaw>>,
    pub definitions: Map<Seq<char>, DefaultSchemaRaw>,
    pub security_definitions: Map<Seq<char>, SecurityScheme>,
}

/// The specification document that routing elements contribute to.
pub struct ApiSpec {
    pub paths: AssocMap<String, PathItem>,
    pub definitions: AssocMap<String, DefaultSchemaRaw>,
    pub security_definitions: AssocMap<String, SecurityScheme>,
}

impl View for ApiSpec {
    type V = ApiView;

    open spec fn view(&self) -> ApiView {
        ApiView {
            paths: self.paths@.map_values(|p: PathItem| p@),
            definitions: self.definitions@,
            security_definitions: self.security_definitions@,
        }
    }
}

/// What one routing element brings: the path it is mounted at, its operations
/// by method, and the schema and security definitions it refers to.
pub struct Contribution {
    pub path: String,
    pub operations: Vec<(Method, DefaultOperationRaw)>,
    pub definitions: Vec<(String, DefaultSchemaRaw)>,
    pub security_definitions: Vec<(String, SecurityScheme)>,
}

/// A contribution with its lists read as maps (a later pair overrides an
/// earlier one with the same key).
pub struct ContributionView {
    pub path: Seq<char>,
    pub operations: Map<Method, DefaultOperationRaw>,
    pub definitions: Map<Seq<char>, DefaultSchemaRaw>,
    pub security_definitions: Map<Seq<char>, SecurityScheme>,
}

impl View for Contribution {
    type V = ContributionView;

    open spec fn view(&self) -> ContributionView {
        ContributionView {
            path: self.path@,
            operations: map_of(self.operations@),
            definitions: map_of(self.definitions@),
            security_definitions: map_of(self.security_definitions@),
        }
    }
}

/// The path map after `ops` are added at `path`: the methods already there
/// stay, unless `ops` holds the same method, whose new operation wins.
pub open spec fn add_operations(
    paths: Map<Seq<char>, Map<Method, DefaultOperationRaw>>,
    path: Seq<char>,
    ops: Map<Method, DefaultOperationRaw>,
) -> Map<Seq<char>, Map<Method, DefaultOperationRaw>> {
    if paths.contains_key(path) {
        paths.insert(path, paths[path].union_prefer_right(ops))
    } else {
        paths.insert(path, ops)
    }
}

/// The document after one contribution: definitions and security schemes by
/// last write, operations by method-level union at the contribution's path.
pub open spec fn merge(d: ApiView, c: ContributionView) -> ApiView {
    ApiView {
        paths: add_operations(d.paths, c.path, c.operations),
        definitions: d.definitions.union_prefer_right(c.definitions),
        security_definitions: d.security_definitions.union_prefer_right(c.security_definitions),
    }
}

/// The document after the contributions of `cs`, in order.
pub open spec fn merge_all(d: ApiView, cs: Seq<ContributionView>) -> ApiView
    decreases cs.len(),
{
    if cs.len() == 0 {
        d
    } else {
        merge(merge_all(d, cs.drop_last()), cs.last())
    }
}

/// The document with nothing in it.
pub open spec fn empty_view() -> ApiView {
    ApiView { paths: Map::empty(), definitions: Map::empty(), security_definitions: Map::empty() }
}

impl ApiSpec {
    /// Each map holds each key once, and so does each path's method map.
    pub open spec fn wf(&self) -> bool {
        &&& self.paths.wf()
        &&& self.definitions.wf()
        &&& self.security_definitions.wf()
        &&& forall|k: Seq<char>| #[trigger] self.paths@.contains_key(k) ==> self.paths@[k].wf()
    }

    /// An empty document.
    pub fn new() -> (r: Self)
        ensures
            r.wf(),
            r@ == empty_view(),
    {
        let r = ApiSpec {
            paths: AssocMap::new(),
            definitions: AssocMap::new(),
            security_definitions: AssocMap::new(),
        };
        assert(r@.paths =~= Map::empty());
        r
    }

    /// Adds `ops` to the operations of `path`, creating the path if it is new.
    pub fn update_operations(&mut self, path: String, ops: Vec<(Method, DefaultOperationRaw)>)
        requires
            old(self).wf(),
        ensures
            final(self).wf(),
            final(self)@ == (ApiView {
                paths: add_operations(old(self)@.paths, path@, map_of(ops@)),
                ..old(self)@
            }),
    {
        let ghost before = self.paths@;
        let mut item = match self.paths.take(&path) {
            Some(item) => item,
            None => PathItem::new(),
        };
        item.methods.extend(ops);
        let ghost new_item = item;
        self.paths.insert(path, item);
        proof {
            assert forall|k: Seq<char>| #[trigger] self.paths@.contains_key(k) implies self.paths@[
                k
            ].wf() by {
                if k != path@ {
                    assert(before.contains_key(k));
                }
            }
            let p = path@;
            let olds = old(self)@.paths;
            assert(self.paths@ == before.remove(p).insert(p, new_item));
            if before.contains_key(p) {
                assert(new_item@ =~= olds[p].union_prefer_right(map_of(ops@)));
            } else {
                assert(new_item@ =~= map_of(ops@));
            }
            assert(self@.paths =~= add_operations(olds, p, map_of(ops@)));
        }
    }

    /// Merges one routing element's contribution: its schema definitions, then
    /// its security schemes, then its operations.
    pub fn merge(&mut self, c: Contribution)
        requires
            old(self).wf(),
        ensures
            final(self).wf(),
            final(self)@ == merge(old(self)@, c@),
    {
        let Contribution { path, operations, definitions, security_definitions } = c;
        self.definitions.extend(definitions);
        self.security_definitions.extend(security_definitions);
        self.update_operations(path, operations);
    }
}

} // verus!
