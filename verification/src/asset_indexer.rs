//! Asset indexing over an ordered list of resource packs.
//!
//! Each pack contributes its entry paths; only paths of the form
//! `assets/<namespace>/textures/<subpath>.<ext>` name assets, mapped to the
//! identifier `<namespace>:<subpath>` with the extension stripped. Across
//! packs, in input order, the indexer accumulates one merged record per
//! identifier (file lists deduplicated, first occurrence kept) and one
//! provider entry per identifier (pack ids in scan order). Records are
//! returned sorted by identifier.

use vstd::prelude::*;
use vstd::string::StrSliceExecFns;
use vstd::string::StringExecFns;

use crate::blockstates::opt_str_view;
use crate::text::{concat3, find_char, find_char_from, rfind_char, starts_with, str_eq,
    str_starts_with, substring, vec_contains_str};

verus! {

/// The asset identifier a pack entry path names, if any: the path must lie
/// under `assets/<namespace>/textures/`, and the extension is stripped at the
/// last dot.
pub open spec fn spec_extract_asset_id(p: Seq<char>) -> Option<Seq<char>> {
    if !starts_with(p, "assets/"@) {
        None
    } else {
        let after = p.skip("assets/"@.len() as int);
        match after.index_of_first('/') {
            None => None,
            Some(i) => {
                let ns = after.take(i);
                let rest = after.skip(i + 1);
                if !starts_with(rest, "textures/"@) {
                    None
                } else {
                    let tp = rest.skip("textures/"@.len() as int);
                    Some(
                        ns + ":"@ + (match tp.index_of_last('.') {
                            Some(j) => tp.take(j),
                            None => tp,
                        }),
                    )
                }
            },
        }
    }
}

/// Extract the asset identifier from a pack entry path.
///
/// `assets/minecraft/textures/block/stone.png` yields
/// `minecraft:block/stone`; paths outside `assets/*/textures/*` yield none.
pub fn extract_asset_id(file_path: &str) -> (r: Option<String>)
    ensures
        opt_str_view(r) == spec_extract_asset_id(file_path@),
{
    if !str_starts_with(file_path, "assets/") {
        return None;
    }
    let al: usize = "assets/".unicode_len();
    let sn: usize = file_path.unicode_len();
    let ghost after = file_path@.skip(al as int);
    match find_char_from(file_path, '/', al) {
        None => None,
        Some(i) => {
            proof {
                after.index_of_first_ensures('/');
                assert(al <= i < sn);
            }
            let ns = substring(file_path, al, i);
            let rest = substring(file_path, i + 1, sn);
            proof {
                assert(ns@ =~= after.take(i - al));
                assert(rest@ =~= after.skip(i - al + 1));
            }
            if !str_starts_with(rest.as_str(), "textures/") {
                return None;
            }
            let tl: usize = "textures/".unicode_len();
            let rn: usize = rest.as_str().unicode_len();
            let tp = substring(rest.as_str(), tl, rn);
            proof {
                assert(tp@ =~= rest@.skip(tl as int));
            }
            let ap: String = match rfind_char(tp.as_str(), '.') {
                Some(j) => {
                    proof {
                        tp@.index_of_last_ensures('.');
                    }
                    substring(tp.as_str(), 0, j)
                },
                None => tp,
            };
            Some(concat3(ns.as_str(), ":", ap.as_str()))
        },
    }
}

/// Split with an accumulated current segment: the segments of `cur + s`,
/// separated by `sep`.
pub open spec fn split_acc(s: Seq<char>, sep: char, cur: Seq<char>) -> Seq<Seq<char>>
    decreases s.len(),
{
    if s.len() == 0 {
        seq![cur]
    } else if s[0] == sep {
        seq![cur] + split_acc(s.drop_first(), sep, Seq::empty())
    } else {
        split_acc(s.drop_first(), sep, cur.push(s[0]))
    }
}

/// The segments of `s` separated by `sep`; an empty `s` has one empty segment.
pub open spec fn split_seq(s: Seq<char>, sep: char) -> Seq<Seq<char>> {
    split_acc(s, sep, Seq::empty())
}

/// The non-empty segments of `s` separated by `sep`.
pub open spec fn nonempty_segments(s: Seq<char>, sep: char) -> Seq<Seq<char>> {
    split_seq(s, sep).filter(|x: Seq<char>| x.len() > 0)
}

/// The labels of an asset identifier: the namespace before the colon, then
/// each non-empty path segment after it, in order.
pub open spec fn spec_extract_labels(id: Seq<char>) -> Seq<Seq<char>> {
    match id.index_of_first(':') {
        Some(c) => seq![id.take(c)] + nonempty_segments(id.skip(c + 1), '/'),
        None => nonempty_segments(id, '/'),
    }
}

/// The non-empty `/`-separated segments of `s`, as owned strings.
fn nonempty_split(s: &str) -> (r: Vec<String>)
    ensures
        r@.map_values(|x: String| x@) == nonempty_segments(s@, '/'),
{
    let sn: usize = s.unicode_len();
    let mut out: Vec<String> = Vec::new();
    let mut seg_start: usize = 0;
    let mut i: usize = 0;
    let ghost mut parts: Seq<Seq<char>> = Seq::empty();
    proof {
        assert(s@.skip(0) =~= s@);
        assert(s@.subrange(0, 0) =~= Seq::<char>::empty());
        assert(Seq::<Seq<char>>::empty() + split_acc(s@, '/', Seq::empty()) =~= split_acc(
            s@,
            '/',
            Seq::empty(),
        ));
        assert(Seq::<Seq<char>>::empty().filter(|x: Seq<char>| x.len() > 0)
            =~= Seq::<Seq<char>>::empty()) by {
            reveal(Seq::filter);
        }
    }
    while i < sn
        invariant
            seg_start <= i <= sn,
            sn == s@.len(),
            split_seq(s@, '/') == parts + split_acc(
                s@.skip(i as int),
                '/',
                s@.subrange(seg_start as int, i as int),
            ),
            out@.map_values(|x: String| x@) == parts.filter(|x: Seq<char>| x.len() > 0),
        decreases sn - i,
    {
        let ghost cur = s@.subrange(seg_start as int, i as int);
        proof {
            assert(s@.skip(i as int)[0] == s@[i as int]);
            assert(s@.skip(i as int).drop_first() =~= s@.skip(i as int + 1));
        }
        if s.get_char(i) == '/' {
            proof {
                assert(split_acc(s@.skip(i as int), '/', cur) == seq![cur] + split_acc(
                    s@.skip(i as int + 1),
                    '/',
                    Seq::empty(),
                ));
                assert(parts + (seq![cur] + split_acc(s@.skip(i as int + 1), '/', Seq::empty()))
                    =~= parts.push(cur) + split_acc(s@.skip(i as int + 1), '/', Seq::empty()));
            }
            if seg_start < i {
                out.push(substring(s, seg_start, i));
                proof {
                    assert(out@.map_values(|x: String| x@) =~= parts.filter(
                        |x: Seq<char>| x.len() > 0,
                    ).push(cur));
                }
            }
            proof {
                assert(parts.push(cur).drop_last() =~= parts);
                assert(parts.push(cur).filter(|x: Seq<char>| x.len() > 0) == if cur.len() > 0 {
                    parts.filter(|x: Seq<char>| x.len() > 0).push(cur)
                } else {
                    parts.filter(|x: Seq<char>| x.len() > 0)
                }) by {
                    reveal(Seq::filter);
                }
                parts = parts.push(cur);
                assert(s@.subrange(i as int + 1, i as int + 1) =~= Seq::<char>::empty());
            }
            seg_start = i + 1;
        } else {
            proof {
                assert(cur.push(s@[i as int]) =~= s@.subrange(seg_start as int, i as int + 1));
            }
        }
        i += 1;
    }
    let ghost cur = s@.subrange(seg_start as int, sn as int);
    proof {
        assert(s@.skip(sn as int).len() == 0);
        assert(split_acc(s@.skip(sn as int), '/', cur) == seq![cur]);
        assert(parts + seq![cur] =~= parts.push(cur));
    }
    if seg_start < sn {
        out.push(substring(s, seg_start, sn));
        proof {
            assert(out@.map_values(|x: String| x@) =~= parts.filter(
                |x: Seq<char>| x.len() > 0,
            ).push(cur));
        }
    }
    proof {
        assert(parts.push(cur).drop_last() =~= parts);
        assert(parts.push(cur).filter(|x: Seq<char>| x.len() > 0) == if cur.len() > 0 {
            parts.filter(|x: Seq<char>| x.len() > 0).push(cur)
        } else {
            parts.filter(|x: Seq<char>| x.len() > 0)
        }) by {
            reveal(Seq::filter);
        }
    }
    out
}

/// Extract the labels of an asset identifier.
///
/// `minecraft:block/stone` yields `["minecraft", "block", "stone"]`, order
/// preserved.
pub fn extract_labels(asset_id: &str) -> (r: Vec<String>)
    ensures
        r@.map_values(|x: String| x@) == spec_extract_labels(asset_id@),
{
    proof {
        asset_id@.index_of_first_ensures(':');
    }
    let sn: usize = asset_id.unicode_len();
    match find_char(asset_id, ':') {
        Some(c) => {
            let ns = substring(asset_id, 0, c);
            let rest = substring(asset_id, c + 1, sn);
            proof {
                assert(ns@ =~= asset_id@.take(c as int));
                assert(rest@ =~= asset_id@.skip(c as int + 1));
            }
            let mut out: Vec<String> = Vec::new();
            out.push(ns);
            let mut segs = nonempty_split(rest.as_str());
            let ghost seg_views = segs@.map_values(|x: String| x@);
            out.append(&mut segs);
            proof {
                assert(out@.map_values(|x: String| x@) =~= seq![asset_id@.take(c as int)]
                    + seg_views);
            }
            out
        },
        None => nonempty_split(asset_id),
    }
}

/// One scanned pack handed to the indexer: its id and its entry paths.
#[derive(Debug)]
pub struct PackListing {
    pub pack_id: String,
    pub files: Vec<String>,
}

/// One indexed asset: canonical identifier, derived labels, and the ordered,
/// duplicate-free list of files that define it across packs.
#[derive(Debug)]
pub struct AssetRecord {
    pub id: String,
    pub labels: Vec<String>,
    pub files: Vec<String>,
}

/// Whether some file of the listing names this asset identifier.
pub open spec fn spec_defines(files: Seq<String>, id: Seq<char>) -> bool {
    exists|j: int| 0 <= j < files.len() && spec_extract_asset_id(#[trigger] files[j]@) == Some(id)
}

/// Whether some listing defines this asset identifier.
pub open spec fn spec_defined_anywhere(listings: Seq<PackListing>, id: Seq<char>) -> bool {
    exists|k: int| 0 <= k < listings.len() && spec_defines(#[trigger] listings[k].files@, id)
}

/// The predicate: this character sequence names the identifier `id`.
pub open spec fn asset_pred(id: Seq<char>) -> spec_fn(Seq<char>) -> bool {
    |p: Seq<char>| spec_extract_asset_id(p) == Some(id)
}

/// The files of one listing that name this identifier, in listing order.
pub open spec fn spec_matching_files(files: Seq<String>, id: Seq<char>) -> Seq<Seq<char>> {
    files.map_values(|f: String| f@).filter(asset_pred(id))
}

/// Append the elements of `new` to `acc` in order, skipping those already
/// present.
pub open spec fn dedup_append(acc: Seq<Seq<char>>, new: Seq<Seq<char>>) -> Seq<Seq<char>>
    decreases new.len(),
{
    if new.len() == 0 {
        acc
    } else {
        let prev = dedup_append(acc, new.drop_last());
        if prev.contains(new.last()) {
            prev
        } else {
            prev.push(new.last())
        }
    }
}

/// The merged file list of one identifier: matching files of every listing in
/// input order, first occurrence kept.
pub open spec fn spec_files_for(listings: Seq<PackListing>, id: Seq<char>) -> Seq<Seq<char>>
    decreases listings.len(),
{
    if listings.len() == 0 {
        Seq::empty()
    } else {
        dedup_append(
            spec_files_for(listings.drop_last(), id),
            spec_matching_files(listings.last().files@, id),
        )
    }
}

/// Appending with the duplicate check keeps the list duplicate-free.
proof fn lemma_dedup_append_no_duplicates(acc: Seq<Seq<char>>, new: Seq<Seq<char>>)
    requires
        acc.no_duplicates(),
    ensures
        dedup_append(acc, new).no_duplicates(),
    decreases new.len(),
{
    if new.len() > 0 {
        lemma_dedup_append_no_duplicates(acc, new.drop_last());
        let prev = dedup_append(acc, new.drop_last());
        if !prev.contains(new.last()) {
            let out = prev.push(new.last());
            assert forall|i: int, j: int|
                0 <= i < out.len() && 0 <= j < out.len() && i != j implies out[i] != out[j] by {
                if i == out.len() - 1 {
                    assert(prev[j] == out[j]);
                } else if j == out.len() - 1 {
                    assert(prev[i] == out[i]);
                }
            }
        }
    }
}

/// The merged file list of an identifier is duplicate-free, as every record's
/// file list is.
pub proof fn lemma_files_for_no_duplicates(listings: Seq<PackListing>, id: Seq<char>)
    ensures
        spec_files_for(listings, id).no_duplicates(),
    decreases listings.len(),
{
    if listings.len() > 0 {
        lemma_files_for_no_duplicates(listings.drop_last(), id);
        lemma_dedup_append_no_duplicates(
            spec_files_for(listings.drop_last(), id),
            spec_matching_files(listings.last().files@, id),
        );
    }
}

/// The providers of one identifier: the id of every pack that defines it, in
/// scan order.
/// The predicate: this listing defines the identifier `id`.
pub open spec fn defines_pred(id: Seq<char>) -> spec_fn(PackListing) -> bool {
    |l: PackListing| spec_defines(l.files@, id)
}

/// The pack id of a listing.
pub open spec fn pack_id_of() -> spec_fn(PackListing) -> Seq<char> {
    |l: PackListing| l.pack_id@
}

pub open spec fn spec_providers_for(listings: Seq<PackListing>, id: Seq<char>) -> Seq<Seq<char>> {
    listings.filter(defines_pred(id)).map_values(pack_id_of())
}

/// Filtering one more element appends it exactly when it satisfies the
/// predicate.
pub(crate) proof fn lemma_filter_take_step<A>(s: Seq<A>, i: int, pred: spec_fn(A) -> bool)
    requires
        0 <= i < s.len(),
    ensures
        s.take(i + 1).filter(pred) == if pred(s[i]) {
            s.take(i).filter(pred).push(s[i])
        } else {
            s.take(i).filter(pred)
        },
{
    reveal(Seq::filter);
    assert(s.take(i + 1).drop_last() =~= s.take(i));
    assert(s.take(i + 1).last() == s[i]);
}

/// Whether some file of the listing names this asset identifier.
fn pack_defines(files: &Vec<String>, id: &str) -> (r: bool)
    ensures
        r == spec_defines(files@, id@),
{
    let mut j: usize = 0;
    while j < files.len()
        invariant
            j <= files@.len(),
            forall|k: int| 0 <= k < j ==> spec_extract_asset_id(#[trigger] files@[k]@) != Some(
                id@,
            ),
        decreases files@.len() - j,
    {
        match extract_asset_id(files[j].as_str()) {
            Some(found) => {
                if str_eq(found.as_str(), id) {
                    assert(spec_extract_asset_id(files@[j as int]@) == Some(id@));
                    return true;
                }
            },
            None => {},
        }
        j += 1;
    }
    false
}

/// The merged, duplicate-free file list of one identifier across listings.
fn collect_files(listings: &Vec<PackListing>, id: &str) -> (r: Vec<String>)
    ensures
        r@.map_values(|x: String| x@) == spec_files_for(listings@, id@),
{
    let mut out: Vec<String> = Vec::new();
    let mut k: usize = 0;
    while k < listings.len()
        invariant
            k <= listings@.len(),
            out@.map_values(|x: String| x@) == spec_files_for(listings@.take(k as int), id@),
        decreases listings@.len() - k,
    {
        let files = &listings[k].files;
        let ghost mf = files@.map_values(|f: String| f@);
        let ghost prev = spec_files_for(listings@.take(k as int), id@);
        let mut i: usize = 0;
        proof {
            assert(mf.take(0) =~= Seq::<Seq<char>>::empty());
            assert(Seq::<Seq<char>>::empty().filter(asset_pred(id@)) =~= Seq::<Seq<char>>::empty()) by {
                reveal(Seq::filter);
            }
        }
        while i < files.len()
            invariant
                i <= files@.len(),
                files == &listings@[k as int].files,
                k < listings@.len(),
                mf == files@.map_values(|f: String| f@),
                out@.map_values(|x: String| x@) == dedup_append(prev, mf.take(i as int).filter(asset_pred(id@))),
            decreases files@.len() - i,
        {
            proof {
                lemma_filter_take_step(mf, i as int, asset_pred(id@));
                assert(mf[i as int] == files@[i as int]@);
            }
            match extract_asset_id(files[i].as_str()) {
                Some(found) => {
                    if str_eq(found.as_str(), id) {
                        assert(asset_pred(id@)(mf[i as int]));
                        let ghost x = mf[i as int];
                        let ghost cur = dedup_append(prev, mf.take(i as int).filter(asset_pred(id@)));
                        proof {
                            assert(mf.take(i as int).filter(asset_pred(id@)).push(x).drop_last() =~= mf.take(
                                i as int,
                            ).filter(asset_pred(id@)));
                            assert(mf.take(i as int).filter(asset_pred(id@)).push(x).last() == x);
                        }
                        if !vec_contains_str(&out, files[i].as_str()) {
                            out.push(files[i].clone());
                            proof {
                                assert(out@.map_values(|x2: String| x2@) =~= cur.push(x));
                            }
                        }
                    } else {
                        assert(!asset_pred(id@)(mf[i as int]));
                    }
                },
                None => {
                    assert(!asset_pred(id@)(mf[i as int]));
                },
            }
            i += 1;
        }
        proof {
            assert(mf.take(files@.len() as int) =~= mf);
            assert(listings@.take(k as int + 1).drop_last() =~= listings@.take(k as int));
            assert(listings@.take(k as int + 1).last() == listings@[k as int]);
            assert(spec_matching_files(listings@[k as int].files@, id@) == mf.filter(asset_pred(id@)));
        }
        k += 1;
    }
    proof {
        assert(listings@.take(listings@.len() as int) =~= listings@);
    }
    out
}

/// The provider pack ids of one identifier, in scan order.
fn collect_providers(listings: &Vec<PackListing>, id: &str) -> (r: Vec<String>)
    ensures
        r@.map_values(|x: String| x@) == spec_providers_for(listings@, id@),
{
    let mut out: Vec<String> = Vec::new();
    let mut k: usize = 0;
    proof {
        assert(listings@.take(0) =~= Seq::<PackListing>::empty());
        assert(Seq::<PackListing>::empty().filter(defines_pred(id@)) =~= Seq::<PackListing>::empty()) by {
            reveal(Seq::filter);
        }
        assert(Seq::<PackListing>::empty().map_values(pack_id_of()) =~= Seq::<Seq<char>>::empty());
    }
    while k < listings.len()
        invariant
            k <= listings@.len(),
            out@.map_values(|x: String| x@) == listings@.take(k as int).filter(defines_pred(id@)).map_values(pack_id_of()),
        decreases listings@.len() - k,
    {
        proof {
            lemma_filter_take_step(listings@, k as int, defines_pred(id@));
        }
        if pack_defines(&listings[k].files, id) {
            out.push(listings[k].pack_id.clone());
            proof {
                assert(listings@.take(k as int).filter(defines_pred(id@)).push(
                    listings@[k as int],
                ).map_values(pack_id_of()) =~= listings@.take(k as int).filter(
                    defines_pred(id@),
                ).map_values(pack_id_of()).push(listings@[k as int].pack_id@));
                assert(out@.map_values(|x: String| x@) =~= listings@.take(k as int).filter(
                    defines_pred(id@),
                ).map_values(pack_id_of()).push(listings@[k as int].pack_id@));
            }
        }
        k += 1;
    }
    proof {
        assert(listings@.take(listings@.len() as int) =~= listings@);
    }
    out
}

/// Identifier order: by character code, shorter prefixes first.
pub open spec fn lex_leq(a: Seq<char>, b: Seq<char>) -> bool
    decreases a.len(),
{
    if a.len() == 0 {
        true
    } else if b.len() == 0 {
        false
    } else if (a[0] as u32) == (b[0] as u32) {
        lex_leq(a.drop_first(), b.drop_first())
    } else {
        (a[0] as u32) < (b[0] as u32)
    }
}

/// The identifier order relates every pair, one way or the other.
pub proof fn lemma_lex_total(a: Seq<char>, b: Seq<char>)
    ensures
        lex_leq(a, b) || lex_leq(b, a),
    decreases a.len(),
{
    if a.len() == 0 || b.len() == 0 {
    } else if (a[0] as u32) == (b[0] as u32) {
        lemma_lex_total(a.drop_first(), b.drop_first());
    }
}

/// The identifier order is transitive.
pub proof fn lemma_lex_trans(a: Seq<char>, b: Seq<char>, c: Seq<char>)
    requires
        lex_leq(a, b),
        lex_leq(b, c),
    ensures
        lex_leq(a, c),
    decreases a.len(),
{
    if a.len() == 0 || b.len() == 0 || c.len() == 0 {
    } else if (a[0] as u32) == (b[0] as u32) && (b[0] as u32) == (c[0] as u32) {
        lemma_lex_trans(a.drop_first(), b.drop_first(), c.drop_first());
    }
}

/// Whether `a` comes at or before `b` in identifier order.
fn str_lex_leq(a: &str, b: &str) -> (r: bool)
    ensures
        r == lex_leq(a@, b@),
{
    let an: usize = a.unicode_len();
    let bn: usize = b.unicode_len();
    let mut i: usize = 0;
    proof {
        assert(a@.skip(0) =~= a@);
        assert(b@.skip(0) =~= b@);
    }
    while i < an && i < bn
        invariant
            i <= an,
            i <= bn,
            an == a@.len(),
            bn == b@.len(),
            lex_leq(a@, b@) == lex_leq(a@.skip(i as int), b@.skip(i as int)),
        decreases an - i,
    {
        proof {
            assert(a@.skip(i as int)[0] == a@[i as int]);
            assert(b@.skip(i as int)[0] == b@[i as int]);
            assert(a@.skip(i as int).drop_first() =~= a@.skip(i as int + 1));
            assert(b@.skip(i as int).drop_first() =~= b@.skip(i as int + 1));
        }
        let ca: u32 = a.get_char(i) as u32;
        let cb: u32 = b.get_char(i) as u32;
        if ca < cb {
            return true;
        }
        if ca > cb {
            return false;
        }
        i += 1;
    }
    proof {
        if i >= an {
            assert(a@.skip(i as int).len() == 0);
        } else {
            assert(b@.skip(i as int).len() == 0);
            assert(a@.skip(i as int).len() > 0);
        }
    }
    an <= bn
}

/// No two strings of the list have the same characters.
pub open spec fn distinct_views(s: Seq<String>) -> bool {
    forall|i: int, j: int| 0 <= i < j < s.len() ==> s[i]@ != s[j]@
}

/// The list is sorted in identifier order.
pub open spec fn sorted_views(s: Seq<String>) -> bool {
    forall|i: int, j: int| 0 <= i < j < s.len() ==> lex_leq(#[trigger] s[i]@, #[trigger] s[j]@)
}

/// Whether some string of the list has these characters.
pub open spec fn has_view(s: Seq<String>, x: Seq<char>) -> bool {
    exists|i: int| 0 <= i < s.len() && s[i]@ == x
}

/// Sort distinct identifiers, keeping exactly the same set.
fn sort_ids(ids: Vec<String>) -> (r: Vec<String>)
    requires
        distinct_views(ids@),
    ensures
        distinct_views(r@),
        sorted_views(r@),
        forall|x: Seq<char>| #[trigger] has_view(r@, x) == has_view(ids@, x),
{
    let mut out: Vec<String> = Vec::new();
    let mut i: usize = 0;
    while i < ids.len()
        invariant
            i <= ids@.len(),
            distinct_views(ids@),
            distinct_views(out@),
            sorted_views(out@),
            forall|x: Seq<char>| #[trigger] has_view(out@, x) == has_view(
                ids@.take(i as int),
                x,
            ),
        decreases ids@.len() - i,
    {
        let x = ids[i].clone();
        let ghost old_out = out@;
        proof {
            assert(!has_view(old_out, x@)) by {
                if has_view(old_out, x@) {
                    assert(has_view(ids@.take(i as int), x@));
                    let w = choose|w: int|
                        0 <= w < ids@.take(i as int).len() && ids@.take(i as int)[w]@ == x@;
                    assert(ids@[w]@ == ids@[i as int]@);
                }
            }
        }
        let mut p: usize = 0;
        let mut scanning = true;
        while scanning && p < out.len()
            invariant
                p <= out@.len(),
                out@ == old_out,
                x@ == ids@[i as int]@,
                i < ids@.len(),
                forall|k: int| 0 <= k < p ==> lex_leq(#[trigger] out@[k]@, x@),
                !scanning ==> p < out@.len() && !lex_leq(out@[p as int]@, x@),
            decreases out@.len() - p + (if scanning { 1int } else { 0int }),
        {
            if str_lex_leq(out[p].as_str(), x.as_str()) {
                p += 1;
            } else {
                scanning = false;
            }
        }
        proof {
            assert forall|k: int| p <= k < old_out.len() implies lex_leq(
                x@,
                #[trigger] old_out[k]@,
            ) by {
                lemma_lex_total(old_out[p as int]@, x@);
                if k > p {
                    lemma_lex_trans(x@, old_out[p as int]@, old_out[k]@);
                }
            }
        }
        out.insert(p, x);
        proof {
            assert(forall|k: int| 0 <= k < p ==> out@[k] == old_out[k]);
            assert(out@[p as int]@ == ids@[i as int]@);
            assert(forall|k: int| p < k < out@.len() ==> out@[k] == old_out[k - 1]);
            assert(distinct_views(out@)) by {
                assert forall|k1: int, k2: int|
                    0 <= k1 < k2 < out@.len() implies out@[k1]@ != out@[k2]@ by {
                    if k1 == p {
                        assert(!has_view(old_out, out@[p as int]@));
                        assert(old_out[k2 - 1]@ == out@[k2]@);
                    } else if k2 == p {
                        assert(!has_view(old_out, out@[p as int]@));
                        assert(old_out[k1]@ == out@[k1]@);
                    }
                }
            }
            assert(sorted_views(out@)) by {
                assert forall|k1: int, k2: int| 0 <= k1 < k2 < out@.len() implies lex_leq(
                    #[trigger] out@[k1]@,
                    #[trigger] out@[k2]@,
                ) by {
                    if k1 == p {
                    } else if k2 == p {
                    }
                }
            }
            assert forall|x2: Seq<char>| #[trigger]
                has_view(out@, x2) == has_view(ids@.take(i as int + 1), x2) by {
                let pre = ids@.take(i as int + 1);
                if has_view(out@, x2) {
                    let w = choose|w: int| 0 <= w < out@.len() && out@[w]@ == x2;
                    if w == p {
                        assert(pre[i as int]@ == x2);
                    } else {
                        let w0 = if w < p {
                            w
                        } else {
                            w - 1
                        };
                        assert(old_out[w0]@ == x2);
                        assert(has_view(old_out, x2));
                        let v = choose|v: int|
                            0 <= v < ids@.take(i as int).len() && ids@.take(i as int)[v]@ == x2;
                        assert(pre[v]@ == x2);
                    }
                    assert(has_view(pre, x2));
                }
                if has_view(pre, x2) {
                    let w = choose|w: int| 0 <= w < pre.len() && pre[w]@ == x2;
                    if w == i as int {
                        assert(out@[p as int]@ == x2);
                    } else {
                        assert(ids@.take(i as int)[w]@ == x2);
                        assert(has_view(ids@.take(i as int), x2));
                        assert(has_view(old_out, x2));
                        let v = choose|v: int| 0 <= v < old_out.len() && old_out[v]@ == x2;
                        let v2 = if v < p {
                            v
                        } else {
                            v + 1
                        };
                        assert(out@[v2]@ == x2);
                    }
                    assert(has_view(out@, x2));
                }
            }
        }
        i += 1;
    }
    proof {
        assert(ids@.take(ids@.len() as int) =~= ids@);
    }
    out
}

/// Whether `ids` already holds this identifier.
pub fn ids_contain(ids: &Vec<String>, id: &str) -> (r: bool)
    ensures
        r == has_view(ids@, id@),
{
    let r = vec_contains_str(ids, id);
    proof {
        let m = ids@.map_values(|x: String| x@);
        if m.contains(id@) {
            let w = choose|w: int| 0 <= w < m.len() && m[w] == id@;
            assert(ids@[w]@ == id@);
        }
        if has_view(ids@, id@) {
            let w = choose|w: int| 0 <= w < ids@.len() && ids@[w]@ == id@;
            assert(m[w] == id@);
        }
    }
    r
}

/// One record is correctly indexed against the listings.
pub open spec fn record_correct(listings: Seq<PackListing>, rec: AssetRecord) -> bool {
    &&& spec_defined_anywhere(listings, rec.id@)
    &&& rec.labels@.map_values(|x: String| x@) == spec_extract_labels(rec.id@)
    &&& rec.files@.map_values(|x: String| x@) == spec_files_for(listings, rec.id@)
}

/// One provider entry is correctly indexed against the listings.
pub open spec fn provider_correct(listings: Seq<PackListing>, entry: (String, Vec<String>)) -> bool {
    &&& spec_defined_anywhere(listings, entry.0@)
    &&& entry.1@.map_values(|x: String| x@) == spec_providers_for(listings, entry.0@)
}

/// Whether some record carries this identifier.
pub open spec fn has_record_id(records: Seq<AssetRecord>, id: Seq<char>) -> bool {
    exists|i: int| 0 <= i < records.len() && records[i].id@ == id
}

/// Whether some provider entry carries this identifier.
pub open spec fn has_provider_key(providers: Seq<(String, Vec<String>)>, id: Seq<char>) -> bool {
    exists|i: int| 0 <= i < providers.len() && providers[i].0@ == id
}

/// Index all assets from an ordered list of pack listings.
///
/// Returns one merged record per identifier, sorted by identifier, and the
/// provider map: identifier to the ids of the packs that define it, in scan
/// order. An identifier appears exactly when some listing defines it; packs
/// that do not define it are absent from its providers regardless of scan
/// order.
pub fn index_assets(listings: &Vec<PackListing>) -> (r: (
    Vec<AssetRecord>,
    Vec<(String, Vec<String>)>,
))
    ensures
        forall|i: int| 0 <= i < r.0@.len() ==> record_correct(listings@, #[trigger] r.0@[i]),
        forall|i: int, j: int|
            0 <= i < j < r.0@.len() ==> lex_leq(#[trigger] r.0@[i].id@, #[trigger] r.0@[j].id@)
                && r.0@[i].id@ != r.0@[j].id@,
        forall|id: Seq<char>| #[trigger]
            has_record_id(r.0@, id) <==> spec_defined_anywhere(listings@, id),
        forall|i: int| 0 <= i < r.1@.len() ==> provider_correct(listings@, #[trigger] r.1@[i]),
        forall|id: Seq<char>| #[trigger]
            has_provider_key(r.1@, id) <==> spec_defined_anywhere(listings@, id),
        r.1@.len() == r.0@.len(),
        forall|i: int| 0 <= i < r.0@.len() ==> (#[trigger] r.1@[i]).0@ == r.0@[i].id@,
{
    let mut ids: Vec<String> = Vec::new();
    let mut k: usize = 0;
    while k < listings.len()
        invariant
            k <= listings@.len(),
            distinct_views(ids@),
            forall|id: Seq<char>| #[trigger]
                has_view(ids@, id) <==> spec_defined_anywhere(listings@.take(k as int), id),
        decreases listings@.len() - k,
    {
        let files = &listings[k].files;
        let mut i: usize = 0;
        while i < files.len()
            invariant
                i <= files@.len(),
                k < listings@.len(),
                files == &listings@[k as int].files,
                distinct_views(ids@),
                forall|id: Seq<char>| #[trigger]
                    has_view(ids@, id) <==> (spec_defined_anywhere(listings@.take(k as int), id)
                        || spec_defines(files@.take(i as int), id)),
            decreases files@.len() - i,
        {
            let ghost pre = ids@;
            match extract_asset_id(files[i].as_str()) {
                Some(found) => {
                    let ghost fv = found@;
                    if !ids_contain(&ids, found.as_str()) {
                        ids.push(found);
                        proof {
                            assert(forall|j: int| 0 <= j < pre.len() ==> ids@[j] == pre[j]);
                            assert(ids@[ids@.len() - 1]@ == fv);
                            assert(has_view(ids@, fv));
                        }
                    } else {
                        proof {
                            assert(has_view(ids@, fv));
                        }
                    }
                },
                None => {},
            }
            proof {
                assert forall|id: Seq<char>| #[trigger]
                    has_view(ids@, id) <==> (spec_defined_anywhere(listings@.take(k as int), id)
                        || spec_defines(files@.take(i as int + 1), id)) by {
                    assert(forall|j: int|
                        0 <= j < i + 1 ==> files@.take(i as int + 1)[j] == files@.take(i as int + 1)[
                            j
                        ] && files@.take(i as int + 1)[j] == files@[j]);
                    if has_view(ids@, id) {
                        let w = choose|w: int| 0 <= w < ids@.len() && ids@[w]@ == id;
                        if w < pre.len() {
                            assert(has_view(pre, id));
                            if spec_defines(files@.take(i as int), id) {
                                let v = choose|v: int|
                                    0 <= v < i && spec_extract_asset_id(
                                        #[trigger] files@.take(i as int)[v]@,
                                    ) == Some(id);
                                assert(spec_extract_asset_id(files@.take(i as int + 1)[v]@)
                                    == Some(id));
                            }
                        } else {
                            assert(ids@[w]@ == id && spec_extract_asset_id(files@[i as int]@)
                                == Some(id));
                            assert(spec_extract_asset_id(files@.take(i as int + 1)[i as int]@)
                                == Some(id));
                        }
                    }
                    if spec_defined_anywhere(listings@.take(k as int), id) {
                        assert(has_view(pre, id));
                        let w = choose|w: int| 0 <= w < pre.len() && pre[w]@ == id;
                        assert(ids@[w]@ == id);
                    }
                    if spec_defines(files@.take(i as int + 1), id) {
                        let v = choose|v: int|
                            0 <= v < i + 1 && spec_extract_asset_id(
                                #[trigger] files@.take(i as int + 1)[v]@,
                            ) == Some(id);
                        if v < i {
                            assert(spec_extract_asset_id(files@.take(i as int)[v]@) == Some(id));
                            assert(has_view(pre, id));
                            let w = choose|w: int| 0 <= w < pre.len() && pre[w]@ == id;
                            assert(ids@[w]@ == id);
                        } else {
                            assert(spec_extract_asset_id(files@[i as int]@) == Some(id));
                            assert(has_view(ids@, id));
                        }
                    }
                }
            }
            i += 1;
        }
        proof {
            assert(files@.take(files@.len() as int) =~= files@);
            assert forall|id: Seq<char>| #[trigger]
                spec_defined_anywhere(listings@.take(k as int + 1), id) <==> (
                spec_defined_anywhere(listings@.take(k as int), id) || spec_defines(
                    listings@[k as int].files@,
                    id,
                )) by {
                let pre1 = listings@.take(k as int + 1);
                if spec_defined_anywhere(pre1, id) {
                    let w = choose|w: int|
                        0 <= w < pre1.len() && spec_defines(#[trigger] pre1[w].files@, id);
                    if w < k {
                        assert(listings@.take(k as int)[w] == pre1[w]);
                        assert(spec_defines(listings@.take(k as int)[w].files@, id));
                    } else {
                        assert(pre1[w] == listings@[k as int]);
                    }
                }
                if spec_defined_anywhere(listings@.take(k as int), id) {
                    let w = choose|w: int|
                        0 <= w < k && spec_defines(
                            #[trigger] listings@.take(k as int)[w].files@,
                            id,
                        );
                    assert(spec_defines(pre1[w].files@, id));
                }
                if spec_defines(listings@[k as int].files@, id) {
                    assert(spec_defines(pre1[k as int].files@, id));
                }
            }
        }
        k += 1;
    }
    proof {
        assert(listings@.take(listings@.len() as int) =~= listings@);
    }
    let sorted = sort_ids(ids);
    let mut records: Vec<AssetRecord> = Vec::new();
    let mut providers: Vec<(String, Vec<String>)> = Vec::new();
    let mut t: usize = 0;
    while t < sorted.len()
        invariant
            t <= sorted@.len(),
            records@.len() == t,
            providers@.len() == t,
            distinct_views(sorted@),
            sorted_views(sorted@),
            forall|id: Seq<char>| #[trigger]
                has_view(sorted@, id) <==> spec_defined_anywhere(listings@, id),
            forall|j: int|
                0 <= j < t ==> (#[trigger] records@[j]).id@ == sorted@[j]@ && record_correct(
                    listings@,
                    records@[j],
                ),
            forall|j: int|
                0 <= j < t ==> (#[trigger] providers@[j]).0@ == sorted@[j]@ && provider_correct(
                    listings@,
                    providers@[j],
                ),
        decreases sorted@.len() - t,
    {
        let id = sorted[t].clone();
        proof {
            assert(has_view(sorted@, id@));
        }
        let labels = extract_labels(id.as_str());
        let files = collect_files(listings, id.as_str());
        let provs = collect_providers(listings, id.as_str());
        let id2 = id.clone();
        records.push(AssetRecord { id, labels, files });
        providers.push((id2, provs));
        t += 1;
    }
    proof {
        assert forall|id: Seq<char>| #[trigger]
            has_record_id(records@, id) <==> spec_defined_anywhere(listings@, id) by {
            if has_record_id(records@, id) {
                let w = choose|w: int| 0 <= w < records@.len() && records@[w].id@ == id;
                assert(has_view(sorted@, records@[w].id@));
            }
            if spec_defined_anywhere(listings@, id) {
                assert(has_view(sorted@, id));
                let w = choose|w: int| 0 <= w < sorted@.len() && sorted@[w]@ == id;
                assert(records@[w].id@ == id);
            }
        }
        assert forall|id: Seq<char>| #[trigger]
            has_provider_key(providers@, id) <==> spec_defined_anywhere(listings@, id) by {
            if has_provider_key(providers@, id) {
                let w = choose|w: int| 0 <= w < providers@.len() && providers@[w].0@ == id;
                assert(has_view(sorted@, providers@[w].0@));
            }
            if spec_defined_anywhere(listings@, id) {
                assert(has_view(sorted@, id));
                let w = choose|w: int| 0 <= w < sorted@.len() && sorted@[w]@ == id;
                assert(providers@[w].0@ == id);
            }
        }
    }
    (records, providers)
}

} // verus!
