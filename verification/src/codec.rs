//! Save-file codec: the bidirectional mapping between the live domain model
//! (server IDs present) and the persisted document, an ordered sequence of
//! records each holding either an album or the favourite collection.

use crate::models::{
    all_assets_named, assets_from_names, assets_view, collect_file_names, erase_ids,
    file_names_of, wrap_file_names, Album, AlbumSaveFile, AlbumSaveFileView, AlbumView, Asset,
    AssetView, FavouriteCollection, FavouriteCollectionSaveFile,
};
use vstd::prelude::*;

verus! {

/// One record of a save-file document.
#[derive(Clone, Debug, PartialEq)]
pub enum SaveRecord {
    Album(AlbumSaveFile),
    Favourites(FavouriteCollectionSaveFile),
}

/// Ghost projection of a [`SaveRecord`].
pub enum SaveRecordView {
    Album(AlbumSaveFileView),
    Favourites(Seq<Seq<char>>),
}

impl View for SaveRecord {
    type V = SaveRecordView;

    open spec fn view(&self) -> SaveRecordView {
        match self {
            SaveRecord::Album(f) => SaveRecordView::Album(f@),
            SaveRecord::Favourites(f) => SaveRecordView::Favourites(f@),
        }
    }
}

/// Ghost projection of a document.
pub open spec fn records_view(records: Seq<SaveRecord>) -> Seq<SaveRecordView> {
    records.map_values(|r: SaveRecord| r@)
}

/// An asset with no file name cannot be round-tripped, so encoding aborts
/// rather than silently dropping it.
#[derive(Clone, Copy, Debug, PartialEq, Eq, Structural)]
pub enum EncodeError {
    MissingFileName,
}

/// Every album in the sequence has all of its assets named.
pub open spec fn all_albums_encodable(albums: Seq<AlbumView>) -> bool {
    forall|i: int| 0 <= i < albums.len() ==> all_assets_named(albums[i].assets)
}

/// The persisted record of one album.
pub open spec fn album_record(a: AlbumView) -> SaveRecordView {
    SaveRecordView::Album(AlbumSaveFileView { name: a.name, assets: file_names_of(a.assets) })
}

/// What `encode` produces: one record per album, in order, then exactly one
/// favourites record.
pub open spec fn spec_encode(albums: Seq<AlbumView>, favorites: Seq<AssetView>) -> Seq<
    SaveRecordView,
> {
    albums.map_values(|a: AlbumView| album_record(a)).push(
        SaveRecordView::Favourites(file_names_of(favorites)),
    )
}

/// An album as reconstructed from its persisted record: no server IDs left.
pub open spec fn decoded_album(f: AlbumSaveFileView) -> AlbumView {
    AlbumView { id: None, name: f.name, assets: assets_from_names(f.assets) }
}

/// An album with its own and its assets' server IDs forgotten.
pub open spec fn erase_album_ids(a: AlbumView) -> AlbumView {
    AlbumView { id: None, name: a.name, assets: erase_ids(a.assets) }
}

/// The albums a document decodes to: each album-shaped record, in document
/// order, reconstructed without server identity.
pub open spec fn spec_decode_albums(records: Seq<SaveRecordView>) -> Seq<AlbumView>
    decreases records.len(),
{
    if records.len() == 0 {
        Seq::empty()
    } else {
        let rest = spec_decode_albums(records.drop_last());
        match records.last() {
            SaveRecordView::Album(f) => rest.push(decoded_album(f)),
            SaveRecordView::Favourites(_) => rest,
        }
    }
}

/// The favourite file names a document decodes to: those of the last
/// favourites-shaped record in document order, or none when the document
/// holds no such record.
pub open spec fn spec_decode_favorite_names(records: Seq<SaveRecordView>) -> Seq<Seq<char>>
    decreases records.len(),
{
    if records.len() == 0 {
        Seq::empty()
    } else {
        match records.last() {
            SaveRecordView::Favourites(names) => names,
            SaveRecordView::Album(_) => spec_decode_favorite_names(records.drop_last()),
        }
    }
}

/// The favourite collection a document decodes to.
pub open spec fn spec_decode_favorites(records: Seq<SaveRecordView>) -> Seq<AssetView> {
    assets_from_names(spec_decode_favorite_names(records))
}

/// Whether every asset of the list carries a file name.
pub fn assets_all_named(assets: &Vec<Asset>) -> (b: bool)
    ensures
        b == all_assets_named(assets_view(assets@)),
{
    let ghost target = assets_view(assets@);
    let mut i: usize = 0;
    while i < assets.len()
        invariant
            i <= assets.len(),
            target == assets_view(assets@),
            forall|j: int| 0 <= j < i ==> target[j].name is Some,
        decreases assets.len() - i,
    {
        proof {
            assert(target[i as int] == assets@[i as int]@);
        }
        if assets[i].original_file_name.is_none() {
            return false;
        }
        i = i + 1;
    }
    true
}

/// Whether every album of the list has all of its assets named, so that the
/// list can be encoded.
pub fn albums_are_encodable(albums: &Vec<Album>) -> (b: bool)
    ensures
        b == all_albums_encodable(crate::models::albums_view(albums@)),
{
    let ghost avs = crate::models::albums_view(albums@);
    let mut i: usize = 0;
    while i < albums.len()
        invariant
            i <= albums.len(),
            avs == crate::models::albums_view(albums@),
            forall|j: int| 0 <= j < i ==> all_assets_named(avs[j].assets),
        decreases albums.len() - i,
    {
        proof {
            assert(avs[i as int] == albums@[i as int]@);
            assert(avs[i as int].assets =~= assets_view(albums@[i as int].assets@));
        }
        if !assets_all_named(&albums[i].assets) {
            proof {
                assert(!all_assets_named(avs[i as int].assets));
            }
            return false;
        }
        i = i + 1;
    }
    true
}

/// Produce the persisted document for a live snapshot: one record per album,
/// in order, then exactly one favourites record. Fails, leaving nothing
/// encoded, as soon as any asset lacks a file name.
pub fn encode(albums: &Vec<Album>, favorites: &FavouriteCollection) -> (r: Result<
    Vec<SaveRecord>,
    EncodeError,
>)
    ensures
        r is Ok <==> all_albums_encodable(crate::models::albums_view(albums@))
            && all_assets_named(favorites@),
        r is Ok ==> records_view(r->Ok_0@) == spec_encode(
            crate::models::albums_view(albums@),
            favorites@,
        ),
        r is Err ==> r->Err_0 == EncodeError::MissingFileName,
{
    let ghost avs = crate::models::albums_view(albums@);
    let mut records: Vec<SaveRecord> = Vec::new();
    let mut i: usize = 0;
    while i < albums.len()
        invariant
            i <= albums.len(),
            avs == crate::models::albums_view(albums@),
            forall|j: int| 0 <= j < i ==> all_assets_named(avs[j].assets),
            records_view(records@) == avs.take(i as int).map_values(|a: AlbumView| album_record(a)),
        decreases albums.len() - i,
    {
        let ghost pre = records_view(records@);
        proof {
            assert(avs[i as int] == albums@[i as int]@);
        }
        let album = &albums[i];
        if !assets_all_named(&album.assets) {
            return Err(EncodeError::MissingFileName);
        }
        let names = collect_file_names(&album.assets);
        records.push(
            SaveRecord::Album(AlbumSaveFile { album_name: album.album_name.clone(), assets: names }),
        );
        proof {
            assert(records_view(records@) =~= pre.push(album_record(avs[i as int])));
            assert(avs.take(i + 1).map_values(|a: AlbumView| album_record(a)) =~= pre.push(
                album_record(avs[i as int]),
            ));
        }
        i = i + 1;
    }
    proof {
        assert(avs.take(albums@.len() as int) =~= avs);
    }
    if !assets_all_named(&favorites.favorites) {
        return Err(EncodeError::MissingFileName);
    }
    let ghost pre = records_view(records@);
    let fav_names = collect_file_names(&favorites.favorites);
    records.push(SaveRecord::Favourites(FavouriteCollectionSaveFile { favorites: fav_names }));
    proof {
        assert(records_view(records@) =~= pre.push(
            SaveRecordView::Favourites(file_names_of(favorites@)),
        ));
    }
    Ok(records)
}

/// Clone a list of file names.
fn clone_names(names: &Vec<String>) -> (r: Vec<String>)
    ensures
        r.deep_view() == names.deep_view(),
{
    let mut r: Vec<String> = Vec::new();
    let mut i: usize = 0;
    while i < names.len()
        invariant
            i <= names.len(),
            r.deep_view() == names.deep_view().take(i as int),
        decreases names.len() - i,
    {
        let ghost pre = r.deep_view();
        r.push(names[i].clone());
        proof {
            assert(r.deep_view() =~= pre.push(names@[i as int]@));
            assert(names.deep_view().take(i + 1) =~= pre.push(names@[i as int]@));
        }
        i = i + 1;
    }
    proof {
        assert(names.deep_view().take(names@.len() as int) =~= names.deep_view());
    }
    r
}

/// Rebuild the domain snapshot a document describes: every album-shaped
/// record becomes an identity-free album, in document order; the last
/// favourites-shaped record, if any, gives the favourite collection, and a
/// document without one yields an empty collection.
pub fn decode(records: &Vec<SaveRecord>) -> (r: (Vec<Album>, FavouriteCollection))
    ensures
        crate::models::albums_view(r.0@) == spec_decode_albums(records_view(records@)),
        r.1@ == spec_decode_favorites(records_view(records@)),
{
    let ghost rv = records_view(records@);
    let mut albums: Vec<Album> = Vec::new();
    let mut fav_names: Vec<String> = Vec::new();
    let mut i: usize = 0;
    while i < records.len()
        invariant
            i <= records.len(),
            rv == records_view(records@),
            crate::models::albums_view(albums@) == spec_decode_albums(rv.take(i as int)),
            fav_names.deep_view() == spec_decode_favorite_names(rv.take(i as int)),
        decreases records.len() - i,
    {
        let ghost pre_albums = crate::models::albums_view(albums@);
        proof {
            assert(rv[i as int] == records@[i as int]@);
            assert(rv.take(i + 1) =~= rv.take(i as int).push(rv[i as int]));
            assert(rv.take(i + 1).drop_last() =~= rv.take(i as int));
        }
        match &records[i] {
            SaveRecord::Album(f) => {
                let assets = wrap_file_names(&f.assets);
                albums.push(Album { id: None, album_name: f.album_name.clone(), assets });
                proof {
                    assert(crate::models::albums_view(albums@) =~= pre_albums.push(
                        decoded_album(f@),
                    ));
                }
            }
            SaveRecord::Favourites(f) => {
                fav_names = clone_names(&f.favorites);
            }
        }
        i = i + 1;
    }
    proof {
        assert(rv.take(records@.len() as int) =~= rv);
    }
    let favorites = FavouriteCollection { favorites: wrap_file_names(&fav_names) };
    (albums, favorites)
}

/// Decoding the records of the album-shaped prefix of a saved document yields
/// exactly those albums, with server identity erased.
proof fn lemma_decode_albums_of_album_records(albums: Seq<AlbumView>)
    requires
        all_albums_encodable(albums),
    ensures
        spec_decode_albums(albums.map_values(|a: AlbumView| album_record(a))) == albums.map_values(
            |a: AlbumView| erase_album_ids(a),
        ),
    decreases albums.len(),
{
    let records = albums.map_values(|a: AlbumView| album_record(a));
    let erased = albums.map_values(|a: AlbumView| erase_album_ids(a));
    if albums.len() == 0 {
        assert(spec_decode_albums(records) =~= erased);
    } else {
        let prefix = albums.drop_last();
        lemma_decode_albums_of_album_records(prefix);
        assert(records.drop_last() =~= prefix.map_values(|a: AlbumView| album_record(a)));
        let a = albums.last();
        assert(records.last() == album_record(a));
        assert(all_assets_named(a.assets));
        assert(decoded_album(AlbumSaveFileView { name: a.name, assets: file_names_of(a.assets) })
            .assets =~= erase_ids(a.assets));
        assert(erased =~= prefix.map_values(|x: AlbumView| erase_album_ids(x)).push(
            erase_album_ids(a),
        ));
    }
}

/// Round-trip law: decoding an encoded snapshot gives back the same albums
/// and favourites up to erasure of server IDs — the IDs are absent after the
/// round trip, and nothing else has changed.
pub proof fn lemma_save_round_trip(albums: Seq<AlbumView>, favorites: Seq<AssetView>)
    requires
        all_albums_encodable(albums),
        all_assets_named(favorites),
    ensures
        spec_decode_albums(spec_encode(albums, favorites)) == albums.map_values(
            |a: AlbumView| erase_album_ids(a),
        ),
        spec_decode_favorites(spec_encode(albums, favorites)) == erase_ids(favorites),
{
    let records = spec_encode(albums, favorites);
    let album_records = albums.map_values(|a: AlbumView| album_record(a));
    assert(records.last() == SaveRecordView::Favourites(file_names_of(favorites)));
    assert(records.drop_last() =~= album_records);
    lemma_decode_albums_of_album_records(albums);
    assert(spec_decode_favorite_names(records) == file_names_of(favorites));
    assert(assets_from_names(file_names_of(favorites)) =~= erase_ids(favorites));
}

/// Decode tolerance: a document with no favourites-shaped record decodes to
/// an empty favourite collection rather than failing.
pub proof fn lemma_decode_without_favorites_record(records: Seq<SaveRecordView>)
    requires
        forall|i: int| 0 <= i < records.len() ==> records[i] is Album,
    ensures
        spec_decode_favorites(records) == Seq::<AssetView>::empty(),
    decreases records.len(),
{
    if records.len() == 0 {
        assert(assets_from_names(spec_decode_favorite_names(records)) =~= Seq::<
            AssetView,
        >::empty());
    } else {
        assert(records.last() is Album);
        let prefix = records.drop_last();
        assert(forall|i: int| 0 <= i < prefix.len() ==> prefix[i] is Album);
        lemma_decode_without_favorites_record(prefix);
        assert(spec_decode_favorite_names(records) == spec_decode_favorite_names(prefix));
    }
}

} // verus!
