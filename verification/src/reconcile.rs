//! Reconciliation engine: given a snapshot loaded from a save file and the
//! freshly fetched live server state, compute the server mutations that bring
//! favorites (and albums) on the server into agreement with the snapshot.
//!
//! Matching is keyed by original file name, because server-assigned IDs are
//! not stable across server instances. A name shared by several live assets
//! matches all of them; a name matching no live asset contributes nothing.

use crate::codec::all_albums_encodable;
use crate::models::{
    albums_view, all_assets_named, assets_view, collect_file_names, file_names_of, Album,
    AlbumView, Asset, AssetView, FavouriteCollection,
};
use vstd::prelude::*;

verus! {

/// In a live snapshot, every asset that carries a file name also carries a
/// server-assigned ID.
pub open spec fn catalog_well_formed(catalog: Seq<AssetView>) -> bool {
    forall|i: int| 0 <= i < catalog.len() ==> (catalog[i].name is Some ==> catalog[i].id is Some)
}

/// The IDs, in catalog order, of every live asset sharing the given file
/// name: zero, one, or many (collisions all match).
pub open spec fn ids_for_name(catalog: Seq<AssetView>, name: Seq<char>) -> Seq<Seq<char>>
    decreases catalog.len(),
{
    if catalog.len() == 0 {
        Seq::empty()
    } else {
        let rest = ids_for_name(catalog.drop_last(), name);
        if catalog.last().name == Some(name) {
            rest.push(catalog.last().id->Some_0)
        } else {
            rest
        }
    }
}

/// The IDs queued for favoriting: for each target favorite in order, every
/// matching live ID, kept as-is — no deduplication, unmatched or unnamed
/// targets contributing nothing.
pub open spec fn favorite_ids(target: Seq<AssetView>, catalog: Seq<AssetView>) -> Seq<Seq<char>>
    decreases target.len(),
{
    if target.len() == 0 {
        Seq::empty()
    } else {
        favorite_ids(target.drop_last(), catalog) + (match target.last().name {
            Some(n) => ids_for_name(catalog, n),
            None => Seq::empty(),
        })
    }
}

/// Whether every named asset of a live catalog carries a server ID, as
/// reconciliation requires of its input.
pub fn catalog_is_well_formed(catalog: &Vec<Asset>) -> (b: bool)
    ensures
        b == catalog_well_formed(assets_view(catalog@)),
{
    let ghost cv = assets_view(catalog@);
    let mut i: usize = 0;
    while i < catalog.len()
        invariant
            i <= catalog.len(),
            cv == assets_view(catalog@),
            forall|j: int| 0 <= j < i ==> (cv[j].name is Some ==> cv[j].id is Some),
        decreases catalog.len() - i,
    {
        proof {
            assert(cv[i as int] == catalog@[i as int]@);
        }
        if catalog[i].original_file_name.is_some() && catalog[i].id.is_none() {
            return false;
        }
        i = i + 1;
    }
    true
}

/// Whether every album of a live album list carries a server ID, as album
/// reconciliation requires of its input.
pub fn albums_have_ids(albums: &Vec<Album>) -> (b: bool)
    ensures
        b == (forall|i: int|
            0 <= i < albums@.len() ==> #[trigger] albums_view(albums@)[i].id is Some),
{
    let ghost lv = albums_view(albums@);
    let mut i: usize = 0;
    while i < albums.len()
        invariant
            i <= albums.len(),
            lv == albums_view(albums@),
            forall|j: int| 0 <= j < i ==> #[trigger] lv[j].id is Some,
        decreases albums.len() - i,
    {
        proof {
            assert(lv[i as int] == albums@[i as int]@);
        }
        if albums[i].id.is_none() {
            proof {
                assert(!(albums_view(albums@)[i as int].id is Some));
            }
            return false;
        }
        i = i + 1;
    }
    true
}

/// The IDs of every live asset whose file name equals `name`.
pub fn matching_ids(catalog: &Vec<Asset>, name: &String) -> (ids: Vec<String>)
    requires
        catalog_well_formed(assets_view(catalog@)),
    ensures
        ids.deep_view() == ids_for_name(assets_view(catalog@), name@),
{
    let ghost cv = assets_view(catalog@);
    let mut ids: Vec<String> = Vec::new();
    let mut j: usize = 0;
    while j < catalog.len()
        invariant
            j <= catalog.len(),
            cv == assets_view(catalog@),
            catalog_well_formed(cv),
            ids.deep_view() == ids_for_name(cv.take(j as int), name@),
        decreases catalog.len() - j,
    {
        let ghost pre = ids.deep_view();
        proof {
            assert(cv[j as int] == catalog@[j as int]@);
            assert(cv.take(j + 1) =~= cv.take(j as int).push(cv[j as int]));
            assert(cv.take(j + 1).drop_last() =~= cv.take(j as int));
        }
        match &catalog[j].original_file_name {
            Some(n) => {
                if *n == *name {
                    match &catalog[j].id {
                        Some(id) => {
                            ids.push(id.clone());
                            proof {
                                assert(ids.deep_view() =~= pre.push(cv[j as int].id->Some_0));
                            }
                        }
                        None => {
                            proof {
                                assert(false);
                            }
                        }
                    }
                }
            }
            None => {
            }
        }
        j = j + 1;
    }
    proof {
        assert(cv.take(catalog@.len() as int) =~= cv);
    }
    ids
}

/// Favorites reconciliation: resolve each favorite of the loaded snapshot
/// against the live catalog by file name and return the IDs to mark
/// favorite, in target order, collisions all included, duplicates kept.
/// The caller issues one bulk mutation with exactly this list, or none when
/// the list of target favorites is empty.
pub fn reconcile_favorites(target: &FavouriteCollection, catalog: &Vec<Asset>) -> (ids: Vec<
    String,
>)
    requires
        catalog_well_formed(assets_view(catalog@)),
    ensures
        ids.deep_view() == favorite_ids(target@, assets_view(catalog@)),
{
    let ghost tv = target@;
    let ghost cv = assets_view(catalog@);
    let mut ids: Vec<String> = Vec::new();
    let mut i: usize = 0;
    while i < target.favorites.len()
        invariant
            i <= target.favorites.len(),
            tv == target@,
            cv == assets_view(catalog@),
            catalog_well_formed(cv),
            ids.deep_view() == favorite_ids(tv.take(i as int), cv),
        decreases target.favorites.len() - i,
    {
        let ghost pre = ids.deep_view();
        proof {
            assert(tv[i as int] == target.favorites@[i as int]@);
            assert(tv.take(i + 1) =~= tv.take(i as int).push(tv[i as int]));
            assert(tv.take(i + 1).drop_last() =~= tv.take(i as int));
        }
        match &target.favorites[i].original_file_name {
            Some(name) => {
                let mut found = matching_ids(catalog, name);
                let ghost found_view = found.deep_view();
                ids.append(&mut found);
                proof {
                    assert(ids.deep_view() =~= pre + found_view);
                }
            }
            None => {
                proof {
                    assert(pre + Seq::<Seq<char>>::empty() =~= pre);
                }
            }
        }
        i = i + 1;
    }
    proof {
        assert(tv.take(target.favorites@.len() as int) =~= tv);
    }
    ids
}

/// A server mutation queued by album reconciliation. Only computed here; the
/// transport that issues these calls is outside this library's scope.
#[derive(Clone, Debug, PartialEq)]
pub enum AlbumMutation {
    /// Create an album of this name holding the resolved asset IDs.
    Create { album_name: String, asset_ids: Vec<String> },
    /// Add the resolved asset IDs to the existing album with this server ID.
    AddAssets { album_id: String, asset_ids: Vec<String> },
}

/// Ghost projection of an [`AlbumMutation`].
pub enum AlbumMutationView {
    Create { album_name: Seq<char>, asset_ids: Seq<Seq<char>> },
    AddAssets { album_id: Seq<char>, asset_ids: Seq<Seq<char>> },
}

impl View for AlbumMutation {
    type V = AlbumMutationView;

    open spec fn view(&self) -> AlbumMutationView {
        match self {
            AlbumMutation::Create { album_name, asset_ids } => AlbumMutationView::Create {
                album_name: album_name@,
                asset_ids: asset_ids.deep_view(),
            },
            AlbumMutation::AddAssets { album_id, asset_ids } => AlbumMutationView::AddAssets {
                album_id: album_id@,
                asset_ids: asset_ids.deep_view(),
            },
        }
    }
}

/// Ghost projection of a queue of album mutations.
pub open spec fn mutations_view(muts: Seq<AlbumMutation>) -> Seq<AlbumMutationView> {
    muts.map_values(|m: AlbumMutation| m@)
}

/// Some asset of the sequence carries this file name.
pub open spec fn contains_name(assets: Seq<AssetView>, name: Seq<char>) -> bool {
    exists|i: int| 0 <= i < assets.len() && assets[i].name == Some(name)
}

/// The first live album with the given name, if any.
pub open spec fn find_live_album(live: Seq<AlbumView>, name: Seq<char>) -> Option<AlbumView>
    decreases live.len(),
{
    if live.len() == 0 {
        None
    } else if live.first().name == name {
        Some(live.first())
    } else {
        find_live_album(live.drop_first(), name)
    }
}

/// The target file names absent from the live album's asset list, in target
/// order; meaningful when every target asset is named.
pub open spec fn missing_names(target: Seq<AssetView>, live: Seq<AssetView>) -> Seq<Seq<char>>
    decreases target.len(),
{
    if target.len() == 0 {
        Seq::empty()
    } else {
        let rest = missing_names(target.drop_last(), live);
        let n = target.last().name->Some_0;
        if contains_name(live, n) {
            rest
        } else {
            rest.push(n)
        }
    }
}

/// Every live ID matching each of the names, in name order, via the same
/// file-name keyed matching as favorites reconciliation.
pub open spec fn ids_for_names(names: Seq<Seq<char>>, catalog: Seq<AssetView>) -> Seq<Seq<char>>
    decreases names.len(),
{
    if names.len() == 0 {
        Seq::empty()
    } else {
        ids_for_names(names.drop_last(), catalog) + ids_for_name(catalog, names.last())
    }
}

/// The album mutations that bring the live album list into agreement with
/// the persisted one: for each persisted album in order, add its missing
/// assets to the live album of the same name, or create the album when no
/// live album carries the name. An album already in agreement queues
/// nothing.
pub open spec fn album_mutations(
    persisted: Seq<AlbumView>,
    live: Seq<AlbumView>,
    catalog: Seq<AssetView>,
) -> Seq<AlbumMutationView>
    decreases persisted.len(),
{
    if persisted.len() == 0 {
        Seq::empty()
    } else {
        let rest = album_mutations(persisted.drop_last(), live, catalog);
        let p = persisted.last();
        match find_live_album(live, p.name) {
            Some(l) => {
                let missing = missing_names(p.assets, l.assets);
                if missing.len() == 0 {
                    rest
                } else {
                    rest.push(
                        AlbumMutationView::AddAssets {
                            album_id: l.id->Some_0,
                            asset_ids: ids_for_names(missing, catalog),
                        },
                    )
                }
            },
            None => rest.push(
                AlbumMutationView::Create {
                    album_name: p.name,
                    asset_ids: ids_for_names(file_names_of(p.assets), catalog),
                },
            ),
        }
    }
}

/// Whether some asset of the list carries the given file name.
pub fn contains_file_name(assets: &Vec<Asset>, name: &String) -> (b: bool)
    ensures
        b == contains_name(assets_view(assets@), name@),
{
    let ghost av = assets_view(assets@);
    let mut i: usize = 0;
    while i < assets.len()
        invariant
            i <= assets.len(),
            av == assets_view(assets@),
            forall|j: int| 0 <= j < i ==> av[j].name != Some(name@),
        decreases assets.len() - i,
    {
        proof {
            assert(av[i as int] == assets@[i as int]@);
        }
        match &assets[i].original_file_name {
            Some(n) => {
                if *n == *name {
                    proof {
                        assert(av[i as int].name == Some(name@));
                    }
                    return true;
                }
            }
            None => {
            }
        }
        i = i + 1;
    }
    false
}

/// The index of the first live album with the given name, if any.
fn find_album_index(live: &Vec<Album>, name: &String) -> (r: Option<usize>)
    ensures
        r is Some ==> (r->Some_0 as int) < live@.len() && find_live_album(
            albums_view(live@),
            name@,
        ) == Some(albums_view(live@)[r->Some_0 as int]),
        r is None ==> find_live_album(albums_view(live@), name@) is None,
{
    let ghost lv = albums_view(live@);
    proof {
        assert(lv.skip(0) =~= lv);
    }
    let mut i: usize = 0;
    while i < live.len()
        invariant
            i <= live.len(),
            lv == albums_view(live@),
            find_live_album(lv, name@) == find_live_album(lv.skip(i as int), name@),
        decreases live.len() - i,
    {
        proof {
            assert(lv[i as int] == live@[i as int]@);
            assert(lv.skip(i as int).len() > 0);
            assert(lv.skip(i as int).first() == lv[i as int]);
        }
        if live[i].album_name == *name {
            proof {
                assert(find_live_album(lv.skip(i as int), name@) == Some(lv[i as int]));
            }
            return Some(i);
        }
        proof {
            assert(lv.skip(i as int).drop_first() =~= lv.skip(i + 1));
        }
        i = i + 1;
    }
    proof {
        assert(lv.skip(live@.len() as int) =~= Seq::<AlbumView>::empty());
    }
    None
}

/// The target file names missing from a live album's asset list.
fn missing_file_names(target: &Vec<Asset>, live: &Vec<Asset>) -> (r: Vec<String>)
    requires
        all_assets_named(assets_view(target@)),
    ensures
        r.deep_view() == missing_names(assets_view(target@), assets_view(live@)),
{
    let ghost tv = assets_view(target@);
    let ghost lv = assets_view(live@);
    let mut r: Vec<String> = Vec::new();
    let mut i: usize = 0;
    while i < target.len()
        invariant
            i <= target.len(),
            tv == assets_view(target@),
            lv == assets_view(live@),
            all_assets_named(tv),
            r.deep_view() == missing_names(tv.take(i as int), lv),
        decreases target.len() - i,
    {
        let ghost pre = r.deep_view();
        proof {
            assert(tv[i as int] == target@[i as int]@);
            assert(tv.take(i + 1) =~= tv.take(i as int).push(tv[i as int]));
            assert(tv.take(i + 1).drop_last() =~= tv.take(i as int));
        }
        match &target[i].original_file_name {
            Some(n) => {
                if !contains_file_name(live, n) {
                    r.push(n.clone());
                    proof {
                        assert(r.deep_view() =~= pre.push(tv[i as int].name->Some_0));
                    }
                }
            }
            None => {
                proof {
                    assert(false);
                }
            }
        }
        i = i + 1;
    }
    proof {
        assert(tv.take(target@.len() as int) =~= tv);
    }
    r
}

/// Resolve a list of file names to every matching live ID, in name order.
fn resolve_ids(names: &Vec<String>, catalog: &Vec<Asset>) -> (ids: Vec<String>)
    requires
        catalog_well_formed(assets_view(catalog@)),
    ensures
        ids.deep_view() == ids_for_names(names.deep_view(), assets_view(catalog@)),
{
    let ghost nv = names.deep_view();
    let ghost cv = assets_view(catalog@);
    let mut ids: Vec<String> = Vec::new();
    let mut i: usize = 0;
    while i < names.len()
        invariant
            i <= names.len(),
            nv == names.deep_view(),
            cv == assets_view(catalog@),
            catalog_well_formed(cv),
            ids.deep_view() == ids_for_names(nv.take(i as int), cv),
        decreases names.len() - i,
    {
        let ghost pre = ids.deep_view();
        proof {
            assert(nv[i as int] == names@[i as int]@);
            assert(nv.take(i + 1) =~= nv.take(i as int).push(nv[i as int]));
            assert(nv.take(i + 1).drop_last() =~= nv.take(i as int));
        }
        let mut found = matching_ids(catalog, &names[i]);
        let ghost found_view = found.deep_view();
        ids.append(&mut found);
        proof {
            assert(ids.deep_view() =~= pre + found_view);
        }
        i = i + 1;
    }
    proof {
        assert(nv.take(names@.len() as int) =~= nv);
    }
    ids
}

/// Album reconciliation: compute, without issuing anything, the album
/// mutations that bring the live album list into agreement with the
/// persisted albums — adding each album's missing assets by file name, and
/// creating the albums no live album matches.
pub fn reconcile_albums(persisted: &Vec<Album>, live: &Vec<Album>, catalog: &Vec<Asset>) -> (muts:
    Vec<AlbumMutation>)
    requires
        all_albums_encodable(albums_view(persisted@)),
        forall|i: int| 0 <= i < live@.len() ==> #[trigger] albums_view(live@)[i].id is Some,
        catalog_well_formed(assets_view(catalog@)),
    ensures
        mutations_view(muts@) == album_mutations(
            albums_view(persisted@),
            albums_view(live@),
            assets_view(catalog@),
        ),
{
    let ghost pv = albums_view(persisted@);
    let ghost lv = albums_view(live@);
    let ghost cv = assets_view(catalog@);
    let mut muts: Vec<AlbumMutation> = Vec::new();
    let mut i: usize = 0;
    while i < persisted.len()
        invariant
            i <= persisted.len(),
            pv == albums_view(persisted@),
            lv == albums_view(live@),
            cv == assets_view(catalog@),
            all_albums_encodable(pv),
            forall|j: int| 0 <= j < lv.len() ==> #[trigger] lv[j].id is Some,
            catalog_well_formed(cv),
            mutations_view(muts@) == album_mutations(pv.take(i as int), lv, cv),
        decreases persisted.len() - i,
    {
        let ghost pre = mutations_view(muts@);
        proof {
            assert(pv[i as int] == persisted@[i as int]@);
            assert(pv.take(i + 1) =~= pv.take(i as int).push(pv[i as int]));
            assert(pv.take(i + 1).drop_last() =~= pv.take(i as int));
        }
        let p = &persisted[i];
        proof {
            assert(assets_view(p.assets@) == pv[i as int].assets);
        }
        match find_album_index(live, &p.album_name) {
            Some(j) => {
                proof {
                    assert(lv[j as int] == live@[j as int]@);
                    assert(assets_view(live@[j as int].assets@) == lv[j as int].assets);
                }
                let missing = missing_file_names(&p.assets, &live[j].assets);
                if missing.len() > 0 {
                    let ids = resolve_ids(&missing, catalog);
                    match &live[j].id {
                        Some(id) => {
                            muts.push(
                                AlbumMutation::AddAssets { album_id: id.clone(), asset_ids: ids },
                            );
                            proof {
                                assert(mutations_view(muts@) =~= pre.push(
                                    AlbumMutationView::AddAssets {
                                        album_id: lv[j as int].id->Some_0,
                                        asset_ids: ids_for_names(
                                            missing_names(pv[i as int].assets, lv[j as int].assets),
                                            cv,
                                        ),
                                    },
                                ));
                            }
                        }
                        None => {
                            proof {
                                assert(false);
                            }
                        }
                    }
                } else {
                    proof {
                        assert(missing_names(pv[i as int].assets, lv[j as int].assets).len() == 0);
                    }
                }
            }
            None => {
                let names = collect_file_names(&p.assets);
                let ids = resolve_ids(&names, catalog);
                muts.push(
                    AlbumMutation::Create { album_name: p.album_name.clone(), asset_ids: ids },
                );
                proof {
                    assert(mutations_view(muts@) =~= pre.push(
                        AlbumMutationView::Create {
                            album_name: pv[i as int].name,
                            asset_ids: ids_for_names(file_names_of(pv[i as int].assets), cv),
                        },
                    ));
                }
            }
        }
        i = i + 1;
    }
    proof {
        assert(pv.take(persisted@.len() as int) =~= pv);
    }
    muts
}

/// One asset as the server holds it: its catalog attributes plus the
/// favorite flag that the bulk mutation flips.
pub struct ServerAsset {
    pub asset: AssetView,
    pub favorite: bool,
}

/// Ghost model of the server state reconciliation acts on.
pub struct ServerModel {
    pub assets: Seq<ServerAsset>,
}

/// The catalog the list-all-assets endpoint reports: every asset's name and
/// ID. The favorite flag is no part of the matching key.
pub open spec fn server_catalog(s: ServerModel) -> Seq<AssetView> {
    s.assets.map_values(|a: ServerAsset| a.asset)
}

/// Effect of the bulk set-favorite mutation: every asset whose ID is among
/// the queued IDs becomes favorite, every other asset keeps its flag, and no
/// asset's name or ID changes.
pub open spec fn apply_bulk_favorite(s: ServerModel, ids: Seq<Seq<char>>) -> ServerModel {
    ServerModel {
        assets: s.assets.map_values(
            |a: ServerAsset| ServerAsset {
                asset: a.asset,
                favorite: a.favorite || (a.asset.id is Some && ids.contains(a.asset.id->Some_0)),
            },
        ),
    }
}

/// Idempotence law: the bulk favorite mutation touches only favorite flags,
/// never a name or an ID, so reconciling the same target a second time,
/// against the mutated server, queues exactly the same IDs — a harmless
/// repetition, never an error.
pub proof fn lemma_reconciliation_idempotent(target: Seq<AssetView>, s: ServerModel)
    ensures
        ({
            let ids = favorite_ids(target, server_catalog(s));
            favorite_ids(target, server_catalog(apply_bulk_favorite(s, ids))) == ids
        }),
{
    let ids = favorite_ids(target, server_catalog(s));
    assert(server_catalog(apply_bulk_favorite(s, ids)) =~= server_catalog(s));
}

/// Additive-only law: reconciliation never unfavorites. Every asset favorite
/// before the mutation is still favorite after it, whether or not the
/// persisted snapshot mentions its file name.
pub proof fn lemma_additive_only(target: Seq<AssetView>, s: ServerModel, i: int)
    requires
        0 <= i < s.assets.len(),
        s.assets[i].favorite,
    ensures
        apply_bulk_favorite(s, favorite_ids(target, server_catalog(s))).assets[i].favorite,
{
}

/// A file name matching no live asset yields no IDs.
proof fn lemma_ids_for_name_absent(catalog: Seq<AssetView>, name: Seq<char>)
    requires
        forall|i: int| 0 <= i < catalog.len() ==> catalog[i].name != Some(name),
    ensures
        ids_for_name(catalog, name) == Seq::<Seq<char>>::empty(),
    decreases catalog.len(),
{
    if catalog.len() > 0 {
        let prefix = catalog.drop_last();
        assert(forall|i: int| 0 <= i < prefix.len() ==> prefix[i] == catalog[i]);
        lemma_ids_for_name_absent(prefix, name);
    }
}

/// Missing-match law: a persisted favorite whose file name matches no live
/// asset contributes nothing to the mutation set — the run goes on and the
/// queued IDs are exactly those of the remaining targets.
pub proof fn lemma_unmatched_favorite_contributes_nothing(
    target: Seq<AssetView>,
    catalog: Seq<AssetView>,
    name: Seq<char>,
)
    requires
        forall|i: int| 0 <= i < catalog.len() ==> catalog[i].name != Some(name),
    ensures
        favorite_ids(target.push(AssetView { name: Some(name), id: None }), catalog)
            == favorite_ids(target, catalog),
{
    let extended = target.push(AssetView { name: Some(name), id: None });
    assert(extended.drop_last() =~= target);
    lemma_ids_for_name_absent(catalog, name);
    assert(favorite_ids(target, catalog) + Seq::<Seq<char>>::empty() =~= favorite_ids(
        target,
        catalog,
    ));
}

} // verus!
