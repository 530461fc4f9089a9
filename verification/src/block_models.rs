//! Block models: loading with fallback, parent-chain resolution, merging, and
//! texture-variable resolution.
//!
//! A model may name a parent model; resolution follows that chain, bounded at
//! depth 20, looking each identifier up in the active pack first and in the
//! baseline store on miss. As the chain unwinds, child models are merged over
//! their parents: texture tables are unioned child-over-parent, geometry
//! element lists are replaced wholesale, and the ambient-occlusion flag is
//! overwritten only when the child sets one. The merged result carries no
//! parent link.

use vstd::prelude::*;
use vstd::string::StrSliceExecFns;
use vstd::string::StringExecFns;

use crate::error::{AppError, AppResult};
use crate::text::{concat2, concat5, find_char, find_char_from, str_eq, substring};

verus! {

/// The texture-variable table of a model: variable name to literal texture
/// path or `#variable` reference. Later entries win, so the table is read as a
/// map; entry order otherwise carries no meaning.
#[derive(Debug)]
pub struct TextureTable {
    pub entries: Vec<(String, String)>,
}

/// The map an entry list denotes: each entry inserted in order, so the last
/// entry for a name wins.
pub open spec fn map_of(entries: Seq<(String, String)>) -> Map<Seq<char>, Seq<char>>
    decreases entries.len(),
{
    if entries.len() == 0 {
        Map::empty()
    } else {
        map_of(entries.drop_last()).insert(entries.last().0@, entries.last().1@)
    }
}

impl View for TextureTable {
    type V = Map<Seq<char>, Seq<char>>;

    open spec fn view(&self) -> Map<Seq<char>, Seq<char>> {
        map_of(self.entries@)
    }
}

/// Concatenating entry lists unions their maps, the right list winning.
pub proof fn lemma_map_of_concat(a: Seq<(String, String)>, b: Seq<(String, String)>)
    ensures
        map_of(a + b) == map_of(a).union_prefer_right(map_of(b)),
    decreases b.len(),
{
    if b.len() == 0 {
        assert(a + b =~= a);
        assert(map_of(a).union_prefer_right(map_of(b)) =~= map_of(a));
    } else {
        lemma_map_of_concat(a, b.drop_last());
        assert((a + b).drop_last() =~= a + b.drop_last());
        assert((a + b).last() == b.last());
        assert(map_of(a).union_prefer_right(map_of(b.drop_last())).insert(
            b.last().0@,
            b.last().1@,
        ) =~= map_of(a).union_prefer_right(map_of(b.drop_last()).insert(b.last().0@, b.last().1@)));
    }
}

impl TextureTable {
    /// An empty table.
    pub fn new() -> (r: TextureTable)
        ensures
            r@ == Map::<Seq<char>, Seq<char>>::empty(),
            r.entries@.len() == 0,
    {
        TextureTable { entries: Vec::new() }
    }

    /// Add a binding; it shadows any earlier binding of the same name.
    pub fn insert(&mut self, name: &str, value: &str)
        ensures
            final(self)@ == old(self)@.insert(name@, value@),
            final(self).entries@.len() == old(self).entries@.len() + 1,
            final(self).entries@.last().0@ == name@,
            final(self).entries@.last().1@ == value@,
            final(self).entries@.drop_last() == old(self).entries@,
    {
        let pair = (String::from_str(name), String::from_str(value));
        self.entries.push(pair);
        proof {
            assert(self.entries@.drop_last() =~= old(self).entries@);
        }
    }

    /// Look the latest binding of `name` up.
    pub fn get<'a>(&'a self, name: &str) -> (r: Option<&'a String>)
        ensures
            match r {
                Some(v) => self@.contains_key(name@) && v@ == self@[name@],
                None => !self@.contains_key(name@),
            },
    {
        let ghost full = self.entries@;
        let mut i: usize = self.entries.len();
        proof {
            assert(full.take(full.len() as int) =~= full);
        }
        while i > 0
            invariant
                i <= full.len(),
                full == self.entries@,
                map_of(full).contains_key(name@) == map_of(full.take(i as int)).contains_key(
                    name@,
                ),
                map_of(full).contains_key(name@) ==> map_of(full)[name@] == map_of(
                    full.take(i as int),
                )[name@],
            decreases i,
        {
            proof {
                assert(full.take(i as int).drop_last() =~= full.take(i as int - 1));
                assert(full.take(i as int).last() == full[i as int - 1]);
            }
            if str_eq(self.entries[i - 1].0.as_str(), name) {
                return Some(&self.entries[i - 1].1);
            }
            i -= 1;
        }
        proof {
            assert(full.take(0) =~= Seq::<(String, String)>::empty());
        }
        None
    }

    /// An entry-for-entry copy.
    pub fn duplicate(&self) -> (r: TextureTable)
        ensures
            r.entries@ == self.entries@,
            r@ == self@,
    {
        let mut out: Vec<(String, String)> = Vec::new();
        let mut i: usize = 0;
        while i < self.entries.len()
            invariant
                i <= self.entries@.len(),
                out@ =~= self.entries@.take(i as int),
            decreases self.entries@.len() - i,
        {
            out.push((self.entries[i].0.clone(), self.entries[i].1.clone()));
            proof {
                assert(out@ =~= self.entries@.take(i as int).push(self.entries@[i as int]));
                assert(self.entries@.take(i as int).push(self.entries@[i as int])
                    =~= self.entries@.take(i as int + 1));
            }
            i += 1;
        }
        proof {
            assert(self.entries@.take(self.entries@.len() as int) =~= self.entries@);
        }
        TextureTable { entries: out }
    }
}

/// Ghost shape of a block model: what each field denotes.
#[verifier::ext_equal]
pub ghost struct ModelView {
    pub parent: Option<Seq<char>>,
    pub textures: Option<Map<Seq<char>, Seq<char>>>,
    pub elements: Option<Seq<Seq<char>>>,
    pub ambientocclusion: Option<bool>,
}

/// A block model.
///
/// Geometry elements are carried verbatim as their source text: merging
/// replaces element lists wholesale and never reads inside one.
#[derive(Debug)]
pub struct BlockModel {
    /// Parent model to inherit from (e.g., `minecraft:block/cube_all`).
    pub parent: Option<String>,
    /// Texture variable bindings (e.g., `all` to `minecraft:block/dirt`).
    pub textures: Option<TextureTable>,
    /// Geometry elements (cuboid definitions), carried verbatim.
    pub elements: Option<Vec<String>>,
    /// Ambient-occlusion flag.
    pub ambientocclusion: Option<bool>,
}

impl View for BlockModel {
    type V = ModelView;

    open spec fn view(&self) -> ModelView {
        ModelView {
            parent: match self.parent {
                Some(p) => Some(p@),
                None => None,
            },
            textures: match self.textures {
                Some(t) => Some(t@),
                None => None,
            },
            elements: match self.elements {
                Some(es) => Some(es@.map_values(|s: String| s@)),
                None => None,
            },
            ambientocclusion: self.ambientocclusion,
        }
    }
}

/// A field-for-field copy of a string list.
fn duplicate_strings(v: &Vec<String>) -> (r: Vec<String>)
    ensures
        r@ == v@,
{
    let mut out: Vec<String> = Vec::new();
    let mut i: usize = 0;
    while i < v.len()
        invariant
            i <= v@.len(),
            out@ =~= v@.take(i as int),
        decreases v@.len() - i,
    {
        out.push(v[i].clone());
        proof {
            assert(out@ =~= v@.take(i as int).push(v@[i as int]));
            assert(v@.take(i as int).push(v@[i as int]) =~= v@.take(i as int + 1));
        }
        i += 1;
    }
    proof {
        assert(v@.take(v@.len() as int) =~= v@);
    }
    out
}

impl BlockModel {
    /// A model with the same content.
    pub fn duplicate(&self) -> (r: BlockModel)
        ensures
            r@ == self@,
    {
        BlockModel {
            parent: match &self.parent {
                Some(p) => Some(p.clone()),
                None => None,
            },
            textures: match &self.textures {
                Some(t) => Some(t.duplicate()),
                None => None,
            },
            elements: match &self.elements {
                Some(es) => Some(duplicate_strings(es)),
                None => None,
            },
            ambientocclusion: self.ambientocclusion,
        }
    }
}

/// What merging a child model over its parent denotes: texture tables are
/// unioned with child entries winning, geometry element lists are replaced
/// wholesale when the child defines any, the ambient-occlusion flag is
/// overwritten only when the child sets one, and the parent link is cleared.
pub open spec fn spec_merge(parent: ModelView, child: ModelView) -> ModelView {
    ModelView {
        parent: None,
        textures: match child.textures {
            Some(ct) => match parent.textures {
                Some(pt) => Some(pt.union_prefer_right(ct)),
                None => Some(ct),
            },
            None => parent.textures,
        },
        elements: if child.elements is Some {
            child.elements
        } else {
            parent.elements
        },
        ambientocclusion: if child.ambientocclusion is Some {
            child.ambientocclusion
        } else {
            parent.ambientocclusion
        },
    }
}

/// Merging is associative: folding a three-model chain from either end gives
/// the same merged model. In particular the final texture table of a chain is
/// independent of the order in which adjacent merges are taken.
pub proof fn lemma_merge_associative(a: ModelView, b: ModelView, c: ModelView)
    ensures
        spec_merge(spec_merge(a, b), c) == spec_merge(a, spec_merge(b, c)),
{
    let lhs = spec_merge(spec_merge(a, b), c);
    let rhs = spec_merge(a, spec_merge(b, c));
    match (a.textures, b.textures, c.textures) {
        (Some(at), Some(bt), Some(ct)) => {
            assert(at.union_prefer_right(bt).union_prefer_right(ct) =~= at.union_prefer_right(
                bt.union_prefer_right(ct),
            ));
        },
        _ => {},
    }
    assert(lhs =~~= rhs);
}

/// Merge a parent model with a child model; child properties override the
/// parent's, and the parent link of the result is cleared.
fn merge_models(parent: BlockModel, child: BlockModel) -> (m: BlockModel)
    ensures
        m@ == spec_merge(parent@, child@),
{
    let BlockModel { parent: _, textures: p_tex, elements: p_el, ambientocclusion: p_ao } = parent;
    let BlockModel { parent: _, textures: c_tex, elements: c_el, ambientocclusion: c_ao } = child;
    let textures: Option<TextureTable> = match c_tex {
        Some(ct) => match p_tex {
            Some(pt) => {
                let mut entries = pt.entries;
                let mut child_entries = ct.entries;
                proof {
                    lemma_map_of_concat(entries@, child_entries@);
                }
                entries.append(&mut child_entries);
                Some(TextureTable { entries })
            },
            None => Some(ct),
        },
        None => p_tex,
    };
    BlockModel {
        parent: None,
        textures,
        elements: if c_el.is_some() {
            c_el
        } else {
            p_el
        },
        ambientocclusion: if c_ao.is_some() {
            c_ao
        } else {
            p_ao
        },
    }
}

/// An in-memory model source: identifiers mapped to loaded models, later
/// entries shadowing earlier ones.
#[derive(Debug)]
pub struct ModelStore {
    pub entries: Vec<(String, BlockModel)>,
}

/// The map a store's entry list denotes.
pub open spec fn store_map(entries: Seq<(String, BlockModel)>) -> Map<Seq<char>, ModelView>
    decreases entries.len(),
{
    if entries.len() == 0 {
        Map::empty()
    } else {
        store_map(entries.drop_last()).insert(entries.last().0@, entries.last().1@)
    }
}

impl View for ModelStore {
    type V = Map<Seq<char>, ModelView>;

    open spec fn view(&self) -> Map<Seq<char>, ModelView> {
        store_map(self.entries@)
    }
}

impl ModelStore {
    /// An empty store.
    pub fn new() -> (r: ModelStore)
        ensures
            r@ == Map::<Seq<char>, ModelView>::empty(),
    {
        ModelStore { entries: Vec::new() }
    }

    /// Add a model under an identifier, shadowing any earlier model under it.
    pub fn insert(&mut self, model_id: String, model: BlockModel)
        ensures
            final(self)@ == old(self)@.insert(model_id@, model@),
    {
        let ghost mid = model_id@;
        let ghost mv = model@;
        self.entries.push((model_id, model));
        proof {
            assert(self.entries@.drop_last() =~= old(self).entries@);
            assert(self.entries@.last().0@ == mid);
            assert(self.entries@.last().1@ == mv);
        }
    }

    /// Look the latest model stored under `model_id` up.
    pub fn get<'a>(&'a self, model_id: &str) -> (r: Option<&'a BlockModel>)
        ensures
            match r {
                Some(m) => self@.contains_key(model_id@) && m@ == self@[model_id@],
                None => !self@.contains_key(model_id@),
            },
    {
        let ghost full = self.entries@;
        let mut i: usize = self.entries.len();
        proof {
            assert(full.take(full.len() as int) =~= full);
        }
        while i > 0
            invariant
                i <= full.len(),
                full == self.entries@,
                store_map(full).contains_key(model_id@) == store_map(
                    full.take(i as int),
                ).contains_key(model_id@),
                store_map(full).contains_key(model_id@) ==> store_map(full)[model_id@]
                    == store_map(full.take(i as int))[model_id@],
            decreases i,
        {
            proof {
                assert(full.take(i as int).drop_last() =~= full.take(i as int - 1));
                assert(full.take(i as int).last() == full[i as int - 1]);
            }
            if str_eq(self.entries[i - 1].0.as_str(), model_id) {
                return Some(&self.entries[i - 1].1);
            }
            i -= 1;
        }
        proof {
            assert(full.take(0) =~= Seq::<(String, BlockModel)>::empty());
        }
        None
    }
}

/// Per-model lookup order: the active pack first, then the baseline on miss.
pub open spec fn spec_lookup_with_fallback(
    pack: Map<Seq<char>, ModelView>,
    vanilla: Map<Seq<char>, ModelView>,
    id: Seq<char>,
) -> Option<ModelView> {
    if pack.contains_key(id) {
        Some(pack[id])
    } else if vanilla.contains_key(id) {
        Some(vanilla[id])
    } else {
        None
    }
}

/// Read a block model from a pack store.
///
/// The identifier is normalized first; absence is a not-found error.
pub fn read_block_model(pack: &ModelStore, model_id: &str) -> (r: AppResult<BlockModel>)
    ensures
        match r {
            Ok(m) => pack@.contains_key(spec_normalize_model_id(model_id@)) && m@ == pack@[
                spec_normalize_model_id(model_id@)
            ],
            Err(e) => !pack@.contains_key(spec_normalize_model_id(model_id@)) && e.code@
                == "NOT_FOUND_ERROR"@ && e.message@ == "Model not found: "@
                + spec_normalize_model_id(model_id@),
        },
{
    let normalized = normalize_model_id(model_id);
    match pack.get(normalized.as_str()) {
        Some(m) => Ok(m.duplicate()),
        None => Err(AppError::not_found(concat2("Model not found: ", normalized.as_str()).as_str())),
    }
}

/// Read a block model from a pack store, falling back to the baseline store.
pub fn read_block_model_with_fallback(
    pack: &ModelStore,
    model_id: &str,
    vanilla: &ModelStore,
) -> (r: AppResult<BlockModel>)
    ensures
        match r {
            Ok(m) => spec_lookup_with_fallback(
                pack@,
                vanilla@,
                spec_normalize_model_id(model_id@),
            ) == Some(m@),
            Err(e) => spec_lookup_with_fallback(
                pack@,
                vanilla@,
                spec_normalize_model_id(model_id@),
            ) is None && e.code@ == "NOT_FOUND_ERROR"@,
        },
{
    match read_block_model(pack, model_id) {
        Ok(m) => Ok(m),
        Err(_) => read_block_model(vanilla, model_id),
    }
}

/// The depth bound on parent chains; exceeding it signals a likely circular
/// reference.
pub open spec fn max_model_depth() -> nat {
    20
}

/// What resolving an identifier at a given depth denotes.
pub ghost enum ResolveOutcome {
    /// The fully merged model, parent link cleared.
    Resolved(ModelView),
    /// Some model of the chain is absent from both stores.
    Missing,
    /// The chain is longer than the depth bound allows.
    TooDeep,
}

/// Recursive resolution: load the model (pack first, baseline on miss),
/// resolve its parent one level deeper, and merge child over parent.
pub open spec fn spec_resolve(
    pack: Map<Seq<char>, ModelView>,
    vanilla: Map<Seq<char>, ModelView>,
    id: Seq<char>,
    depth: nat,
) -> ResolveOutcome
    decreases max_model_depth() + 1 - depth,
{
    if depth > max_model_depth() {
        ResolveOutcome::TooDeep
    } else {
        match spec_lookup_with_fallback(pack, vanilla, spec_normalize_model_id(id)) {
            None => ResolveOutcome::Missing,
            Some(mv) => match mv.parent {
                None => ResolveOutcome::Resolved(mv),
                Some(pid) => match spec_resolve(pack, vanilla, pid, depth + 1) {
                    ResolveOutcome::Resolved(pm) => ResolveOutcome::Resolved(spec_merge(pm, mv)),
                    other => other,
                },
            },
        }
    }
}

/// Resolve a block model with all parent inheritance applied, bounded at
/// depth 20; the result carries no parent link.
pub fn resolve_block_model(
    pack: &ModelStore,
    model_id: &str,
    vanilla: &ModelStore,
) -> (r: AppResult<BlockModel>)
    ensures
        match spec_resolve(pack@, vanilla@, model_id@, 0) {
            ResolveOutcome::Resolved(mv) => r matches Ok(m) && m@ == mv,
            ResolveOutcome::Missing => r matches Err(e) && e.code@ == "NOT_FOUND_ERROR"@,
            ResolveOutcome::TooDeep => r matches Err(e) && e.code@ == "DEPTH_EXCEEDED_ERROR"@,
        },
{
    resolve_block_model_with_depth(pack, model_id, vanilla, 0)
}

/// Resolution with an explicit depth counter, so a circular chain is cut off
/// rather than followed forever.
fn resolve_block_model_with_depth(
    pack: &ModelStore,
    model_id: &str,
    vanilla: &ModelStore,
    depth: u32,
) -> (r: AppResult<BlockModel>)
    ensures
        match spec_resolve(pack@, vanilla@, model_id@, depth as nat) {
            ResolveOutcome::Resolved(mv) => r matches Ok(m) && m@ == mv,
            ResolveOutcome::Missing => r matches Err(e) && e.code@ == "NOT_FOUND_ERROR"@,
            ResolveOutcome::TooDeep => r matches Err(e) && e.code@ == "DEPTH_EXCEEDED_ERROR"@,
        },
    decreases
            (if depth > 20 {
                0int
            } else {
                21 - depth as int
            }),
{
    if depth > 20 {
        let msg = concat2("Model parent chain too deep (possible circular reference): ", model_id);
        return Err(AppError::depth_exceeded(msg.as_str()));
    }
    match read_block_model_with_fallback(pack, model_id, vanilla) {
        Err(e) => Err(e),
        Ok(model) => {
            match &model.parent {
                None => Ok(model),
                Some(parent_id) => {
                    let pid = parent_id.clone();
                    match resolve_block_model_with_depth(pack, pid.as_str(), vanilla, depth + 1) {
                        Ok(parent_model) => Ok(merge_models(parent_model, model)),
                        Err(e) => Err(e),
                    }
                },
            }
        },
    }
}

/// A resolved model carries no parent link: a base model has none, and every
/// merge clears it.
pub proof fn lemma_resolved_has_no_parent(
    pack: Map<Seq<char>, ModelView>,
    vanilla: Map<Seq<char>, ModelView>,
    id: Seq<char>,
    depth: nat,
)
    ensures
        spec_resolve(pack, vanilla, id, depth) matches ResolveOutcome::Resolved(mv) ==> mv.parent
            is None,
    decreases max_model_depth() + 1 - depth,
{
    if depth <= max_model_depth() {
        match spec_lookup_with_fallback(pack, vanilla, spec_normalize_model_id(id)) {
            None => {},
            Some(mv) => match mv.parent {
                None => {},
                Some(pid) => {
                    lemma_resolved_has_no_parent(pack, vanilla, pid, depth + 1);
                },
            },
        }
    }
}

/// A chain whose model names itself (or any chain that revisits its own
/// normalized identifier at every step) resolves to the depth-exceeded
/// outcome at every starting depth: it is reported, never followed forever.
pub proof fn lemma_self_reference_exceeds_depth(
    pack: Map<Seq<char>, ModelView>,
    vanilla: Map<Seq<char>, ModelView>,
    id: Seq<char>,
    depth: nat,
)
    requires
        ({
            let m = spec_lookup_with_fallback(pack, vanilla, spec_normalize_model_id(id));
            &&& m is Some
            &&& m->Some_0.parent matches Some(p) && spec_normalize_model_id(p)
                == spec_normalize_model_id(id)
        }),
    ensures
        spec_resolve(pack, vanilla, id, depth) == ResolveOutcome::TooDeep,
    decreases max_model_depth() + 1 - depth,
{
    if depth > max_model_depth() {
    } else {
        let m = spec_lookup_with_fallback(pack, vanilla, spec_normalize_model_id(id));
        let p = m->Some_0.parent->Some_0;
        lemma_self_reference_exceeds_depth(pack, vanilla, p, depth + 1);
    }
}

/// A namespace-less model identifier is assumed to live in `minecraft`.
pub open spec fn spec_normalize_model_id(id: Seq<char>) -> Seq<char> {
    if id.contains(':') {
        id
    } else {
        "minecraft:"@ + id
    }
}

/// Normalize a model identifier to its namespace-qualified form.
///
/// `block/dirt` becomes `minecraft:block/dirt`; a qualified identifier is
/// returned unchanged.
pub fn normalize_model_id(model_id: &str) -> (r: String)
    ensures
        r@ == spec_normalize_model_id(model_id@),
{
    proof {
        model_id@.index_of_first_ensures(':');
    }
    match find_char(model_id, ':') {
        Some(_) => String::from_str(model_id),
        None => concat2("minecraft:", model_id),
    }
}

/// The relative file path a model identifier names inside a pack: namespace
/// and path straddle the colon; an identifier without exactly one colon is
/// looked up under `minecraft` as it stands.
pub open spec fn spec_model_id_to_path(id: Seq<char>) -> Seq<char> {
    match id.index_of_first(':') {
        Some(i) => if id.skip(i + 1).contains(':') {
            "assets/minecraft/models/"@ + id + ".json"@
        } else {
            "assets/"@ + id.take(i) + "/models/"@ + id.skip(i + 1) + ".json"@
        },
        None => "assets/minecraft/models/"@ + id + ".json"@,
    }
}

/// A value without its leading `#` characters: the variable name a
/// `#reference` value names.
pub open spec fn strip_hashes(v: Seq<char>) -> Seq<char>
    decreases v.len(),
{
    if v.len() > 0 && v[0] == '#' {
        strip_hashes(v.drop_first())
    } else {
        v
    }
}

/// Chase a `#reference` value through the table for up to `fuel` hops.
///
/// An unresolvable reference is left as the last `#reference` string rather
/// than failing, and a cycle yields whatever value the last hop reached.
pub open spec fn chase(m: Map<Seq<char>, Seq<char>>, v: Seq<char>, fuel: nat) -> Seq<char>
    decreases fuel,
{
    if v.len() > 0 && v[0] == '#' && fuel > 0 {
        let name = strip_hashes(v);
        if m.contains_key(name) {
            chase(m, m[name], (fuel - 1) as nat)
        } else {
            v
        }
    } else {
        v
    }
}

/// The hop bound on texture-variable chains.
pub open spec fn max_chase_hops() -> nat {
    10
}

/// `v` without its leading `#` characters.
fn strip_hashes_exec(v: &str) -> (r: String)
    ensures
        r@ == strip_hashes(v@),
{
    let vn: usize = v.unicode_len();
    proof {
        assert(v@.skip(0) =~= v@);
    }
    let mut i: usize = 0;
    while i < vn
        invariant
            i <= vn,
            vn == v@.len(),
            strip_hashes(v@) == strip_hashes(v@.skip(i as int)),
        decreases vn - i,
    {
        proof {
            assert(v@.skip(i as int)[0] == v@[i as int]);
            assert(v@.skip(i as int).drop_first() =~= v@.skip(i as int + 1));
        }
        if v.get_char(i) != '#' {
            let r = substring(v, i, vn);
            proof {
                assert(v@.subrange(i as int, vn as int) =~= v@.skip(i as int));
            }
            return r;
        }
        i += 1;
    }
    proof {
        assert(v@.skip(vn as int) =~= Seq::<char>::empty());
    }
    String::new()
}

/// Chase one value through the table for up to `fuel` hops.
fn chase_value(textures: &TextureTable, v: &str, fuel: u32) -> (r: String)
    ensures
        r@ == chase(textures@, v@, fuel as nat),
    decreases fuel,
{
    if fuel == 0 || v.unicode_len() == 0 {
        return String::from_str(v);
    }
    if v.get_char(0) != '#' {
        return String::from_str(v);
    }
    let name = strip_hashes_exec(v);
    match textures.get(name.as_str()) {
        Some(next) => chase_value(textures, next.clone().as_str(), fuel - 1),
        None => String::from_str(v),
    }
}

/// Two texture tables agree entry for entry, the second holding each value of
/// the first chased through `m`.
pub open spec fn chased_pointwise(
    a: Seq<(String, String)>,
    b: Seq<(String, String)>,
    m: Map<Seq<char>, Seq<char>>,
    fuel: nat,
) -> bool {
    &&& a.len() == b.len()
    &&& forall|j: int|
        0 <= j < a.len() ==> (#[trigger] b[j]).0@ == a[j].0@ && b[j].1@ == chase(m, a[j].1@, fuel)
}

/// Entry lists that agree pointwise up to chasing denote maps with the same
/// domain, the second holding chased values.
proof fn lemma_map_of_chased(
    a: Seq<(String, String)>,
    b: Seq<(String, String)>,
    m: Map<Seq<char>, Seq<char>>,
    fuel: nat,
)
    requires
        chased_pointwise(a, b, m, fuel),
    ensures
        map_of(b).dom() == map_of(a).dom(),
        forall|k: Seq<char>| #[trigger]
            map_of(a).contains_key(k) ==> map_of(b)[k] == chase(m, map_of(a)[k], fuel),
    decreases a.len(),
{
    if a.len() == 0 {
        assert(map_of(b).dom() =~= map_of(a).dom());
    } else {
        assert(chased_pointwise(a.drop_last(), b.drop_last(), m, fuel)) by {
            assert(forall|j: int|
                0 <= j < a.drop_last().len() ==> a.drop_last()[j] == a[j] && (#[trigger] b.drop_last()[
                    j
                ]) == b[j]);
        }
        lemma_map_of_chased(a.drop_last(), b.drop_last(), m, fuel);
        assert(a.last() == a[a.len() - 1]);
        assert(b.last() == b[a.len() - 1]);
        assert(map_of(b).dom() =~= map_of(a).dom());
    }
}

/// Resolve all texture variables in a model: each `#reference` value is chased
/// through the table for up to 10 hops; a model without a table resolves to
/// the empty table.
pub fn resolve_textures(model: &BlockModel) -> (r: TextureTable)
    ensures
        match model.textures {
            Some(t) => r@.dom() == t@.dom() && (forall|k: Seq<char>| #[trigger]
                t@.contains_key(k) ==> r@[k] == chase(t@, t@[k], max_chase_hops())),
            None => r@ == Map::<Seq<char>, Seq<char>>::empty(),
        },
{
    match &model.textures {
        None => TextureTable::new(),
        Some(t) => {
            let ghost src = t.entries@;
            let mut out: Vec<(String, String)> = Vec::new();
            let mut i: usize = 0;
            while i < t.entries.len()
                invariant
                    i <= src.len(),
                    src == t.entries@,
                    chased_pointwise(src.take(i as int), out@, t@, max_chase_hops()),
                decreases src.len() - i,
            {
                let key = t.entries[i].0.clone();
                let resolved = chase_value(t, t.entries[i].1.as_str(), 10);
                out.push((key, resolved));
                proof {
                    assert(src.take(i as int + 1).drop_last() =~= src.take(i as int));
                    assert(forall|j: int|
                        0 <= j < i ==> src.take(i as int + 1)[j] == src.take(i as int)[j]);
                }
                i += 1;
            }
            proof {
                assert(src.take(src.len() as int) =~= src);
                lemma_map_of_chased(src, out@, t@, max_chase_hops());
            }
            TextureTable { entries: out }
        },
    }
}

/// Convert a model identifier to the relative file path of its definition.
pub fn model_id_to_path(model_id: &str) -> (r: String)
    ensures
        r@ == spec_model_id_to_path(model_id@),
{
    proof {
        model_id@.index_of_first_ensures(':');
    }
    let sn: usize = model_id.unicode_len();
    match find_char(model_id, ':') {
        Some(i) => {
            proof {
                model_id@.skip(i + 1).index_of_first_ensures(':');
            }
            match find_char_from(model_id, ':', i + 1) {
                Some(_) => concat2("assets/minecraft/models/", model_id).concat(".json"),
                None => {
                    let ns = substring(model_id, 0, i);
                    let path = substring(model_id, i + 1, sn);
                    proof {
                        assert(model_id@.subrange(0, i as int) =~= model_id@.take(i as int));
                        assert(model_id@.subrange(i as int + 1, sn as int) =~= model_id@.skip(
                            i as int + 1,
                        ));
                    }
                    concat5("assets/", ns.as_str(), "/models/", path.as_str(), ".json")
                },
            }
        },
        None => concat2("assets/minecraft/models/", model_id).concat(".json"),
    }
}

} // verus!
