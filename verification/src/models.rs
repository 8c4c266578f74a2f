//! Domain model: live assets and albums (server IDs present) and their
//! persisted, identity-free save-file forms (assets identified by file name).

use vstd::prelude::*;

verus! {

/// Ghost projection of an [`Asset`]: the two attributes the library reasons
/// about, as mathematical values.
pub struct AssetView {
    pub name: Option<Seq<char>>,
    pub id: Option<Seq<char>>,
}

/// A single media item. `original_file_name` is the stable identity key used
/// across server instances; `id` is server-assigned and present only in live
/// snapshots.
#[derive(Clone, Debug, PartialEq)]
pub struct Asset {
    pub original_file_name: Option<String>,
    pub id: Option<String>,
}

impl View for Asset {
    type V = AssetView;

    open spec fn view(&self) -> AssetView {
        AssetView {
            name: match self.original_file_name {
                Some(s) => Some(s@),
                None => None,
            },
            id: match self.id {
                Some(s) => Some(s@),
                None => None,
            },
        }
    }
}

/// Ghost projection of an [`Album`].
pub struct AlbumView {
    pub id: Option<Seq<char>>,
    pub name: Seq<char>,
    pub assets: Seq<AssetView>,
}

/// A named collection of assets. `album_name` is the join key between a
/// persisted album and a live album; `id` is server-assigned.
#[derive(Clone, Debug, PartialEq)]
pub struct Album {
    pub id: Option<String>,
    pub album_name: String,
    pub assets: Vec<Asset>,
}

impl View for Album {
    type V = AlbumView;

    open spec fn view(&self) -> AlbumView {
        AlbumView {
            id: match self.id {
                Some(s) => Some(s@),
                None => None,
            },
            name: self.album_name@,
            assets: self.assets@.map_values(|a: Asset| a@),
        }
    }
}

/// The assets currently marked favorite; no identity beyond its membership.
#[derive(Clone, Debug, PartialEq)]
pub struct FavouriteCollection {
    pub favorites: Vec<Asset>,
}

impl View for FavouriteCollection {
    type V = Seq<AssetView>;

    open spec fn view(&self) -> Seq<AssetView> {
        self.favorites@.map_values(|a: Asset| a@)
    }
}

/// Persisted form of an album: name plus the file names of its assets.
#[derive(Clone, Debug, PartialEq)]
pub struct AlbumSaveFile {
    pub album_name: String,
    pub assets: Vec<String>,
}

/// Ghost projection of an [`AlbumSaveFile`].
pub struct AlbumSaveFileView {
    pub name: Seq<char>,
    pub assets: Seq<Seq<char>>,
}

impl View for AlbumSaveFile {
    type V = AlbumSaveFileView;

    open spec fn view(&self) -> AlbumSaveFileView {
        AlbumSaveFileView { name: self.album_name@, assets: self.assets.deep_view() }
    }
}

/// Persisted form of a favourite collection: the file names alone.
#[derive(Clone, Debug, PartialEq)]
pub struct FavouriteCollectionSaveFile {
    pub favorites: Vec<String>,
}

impl View for FavouriteCollectionSaveFile {
    type V = Seq<Seq<char>>;

    open spec fn view(&self) -> Seq<Seq<char>> {
        self.favorites.deep_view()
    }
}

/// Tag for the two record shapes a save file may hold.
#[derive(Clone, Copy, Debug, PartialEq, Eq, Structural)]
pub enum SaveFile {
    FavouriteCollection,
    Album,
}

/// Every asset in the sequence carries a file name.
pub open spec fn all_assets_named(assets: Seq<AssetView>) -> bool {
    forall|i: int| 0 <= i < assets.len() ==> assets[i].name is Some
}

/// The file names of a fully named asset sequence, in order.
pub open spec fn file_names_of(assets: Seq<AssetView>) -> Seq<Seq<char>> {
    assets.map_values(|a: AssetView| a.name->Some_0)
}

/// Re-wrap persisted file names as assets not yet linked to any live identity.
pub open spec fn assets_from_names(names: Seq<Seq<char>>) -> Seq<AssetView> {
    names.map_values(|n: Seq<char>| AssetView { name: Some(n), id: None })
}

/// Forget the server-assigned IDs of a sequence of assets.
pub open spec fn erase_ids(assets: Seq<AssetView>) -> Seq<AssetView> {
    assets.map_values(|a: AssetView| AssetView { name: a.name, id: None })
}

/// Ghost projection of a sequence of live assets.
pub open spec fn assets_view(assets: Seq<Asset>) -> Seq<AssetView> {
    assets.map_values(|a: Asset| a@)
}

/// Ghost projection of a sequence of albums.
pub open spec fn albums_view(albums: Seq<Album>) -> Seq<AlbumView> {
    albums.map_values(|a: Album| a@)
}

/// Collect the file names of a fully named asset list, in order.
pub fn collect_file_names(assets: &Vec<Asset>) -> (names: Vec<String>)
    requires
        all_assets_named(assets_view(assets@)),
    ensures
        names.deep_view() == file_names_of(assets_view(assets@)),
{
    let ghost target = assets_view(assets@);
    let mut names: Vec<String> = Vec::new();
    let mut i: usize = 0;
    while i < assets.len()
        invariant
            i <= assets.len(),
            target == assets_view(assets@),
            all_assets_named(target),
            names.deep_view() == file_names_of(target.take(i as int)),
        decreases assets.len() - i,
    {
        let ghost pre = names.deep_view();
        proof {
            assert(target[i as int] == assets@[i as int]@);
        }
        match &assets[i].original_file_name {
            Some(n) => {
                names.push(n.clone());
                proof {
                    assert(names.deep_view() =~= pre.push(target[i as int].name->Some_0));
                }
            }
            None => {
                proof {
                    assert(false);
                }
            }
        }
        proof {
            assert(file_names_of(target.take(i + 1)) =~= pre.push(
                target[i as int].name->Some_0,
            ));
        }
        i = i + 1;
    }
    proof {
        assert(target.take(assets@.len() as int) =~= target);
    }
    names
}

/// Re-wrap persisted file names as assets with no server identity yet.
pub fn wrap_file_names(names: &Vec<String>) -> (assets: Vec<Asset>)
    ensures
        assets_view(assets@) == assets_from_names(names.deep_view()),
{
    let ghost target = names.deep_view();
    let mut assets: Vec<Asset> = Vec::new();
    let mut i: usize = 0;
    while i < names.len()
        invariant
            i <= names.len(),
            target == names.deep_view(),
            assets_view(assets@) == assets_from_names(target.take(i as int)),
        decreases names.len() - i,
    {
        let ghost pre = assets_view(assets@);
        assets.push(Asset { original_file_name: Some(names[i].clone()), id: None });
        proof {
            assert(assets_view(assets@) =~= pre.push(
                AssetView { name: Some(target[i as int]), id: None },
            ));
            assert(assets_from_names(target.take(i + 1)) =~= pre.push(
                AssetView { name: Some(target[i as int]), id: None },
            ));
        }
        i = i + 1;
    }
    proof {
        assert(target.take(names@.len() as int) =~= target);
    }
    assets
}

impl AlbumSaveFile {
    /// Persist an album: keep the name, strip server IDs, keep file names.
    pub fn from_album(album: Album) -> (r: AlbumSaveFile)
        requires
            all_assets_named(album@.assets),
        ensures
            r@.name == album@.name,
            r@.assets == file_names_of(album@.assets),
    {
        let assets = collect_file_names(&album.assets);
        AlbumSaveFile { album_name: album.album_name, assets }
    }

    /// Reconstruct an identity-free album from its persisted form.
    pub fn to_album(self) -> (r: Album)
        ensures
            r@.id is None,
            r@.name == self@.name,
            r@.assets == assets_from_names(self@.assets),
    {
        let assets = wrap_file_names(&self.assets);
        Album { id: None, album_name: self.album_name, assets }
    }
}

impl FavouriteCollectionSaveFile {
    /// An empty favourite collection in persisted form.
    pub fn new() -> (r: Self)
        ensures
            r@ == Seq::<Seq<char>>::empty(),
    {
        let r = FavouriteCollectionSaveFile { favorites: Vec::new() };
        proof {
            assert(r@ =~= Seq::<Seq<char>>::empty());
        }
        r
    }

    /// Persist a favourite collection: strip server IDs, keep file names.
    pub fn from_fav_collection(fav: FavouriteCollection) -> (r: Self)
        requires
            all_assets_named(fav@),
        ensures
            r@ == file_names_of(fav@),
    {
        let favorites = collect_file_names(&fav.favorites);
        FavouriteCollectionSaveFile { favorites }
    }

    /// Reconstruct an identity-free favourite collection from its persisted form.
    pub fn to_fav_collection(self) -> (r: FavouriteCollection)
        ensures
            r@ == assets_from_names(self@),
    {
        let favorites = wrap_file_names(&self.favorites);
        FavouriteCollection { favorites }
    }
}

} // verus!
