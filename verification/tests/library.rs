use immich_backup::codec::{albums_are_encodable, decode, encode, EncodeError, SaveRecord};
use immich_backup::models::{
    Album, AlbumSaveFile, Asset, FavouriteCollection, FavouriteCollectionSaveFile,
};
use immich_backup::reconcile::{
    albums_have_ids, catalog_is_well_formed, reconcile_albums, reconcile_favorites, AlbumMutation,
};

fn asset(name: &str, id: &str) -> Asset {
    Asset { original_file_name: Some(name.to_string()), id: Some(id.to_string()) }
}

fn persisted_asset(name: &str) -> Asset {
    Asset { original_file_name: Some(name.to_string()), id: None }
}

#[test]
fn album_save_file_round_trip_erases_ids() {
    let album = Album {
        id: Some("srv-album-1".to_string()),
        album_name: "Trip".to_string(),
        assets: vec![asset("a.jpg", "id7"), asset("b.jpg", "id8")],
    };
    let save = AlbumSaveFile::from_album(album);
    assert_eq!(save.album_name, "Trip");
    assert_eq!(save.assets, vec!["a.jpg".to_string(), "b.jpg".to_string()]);
    let back = save.to_album();
    assert_eq!(back.id, None);
    assert_eq!(back.album_name, "Trip");
    assert_eq!(back.assets, vec![persisted_asset("a.jpg"), persisted_asset("b.jpg")]);
}

#[test]
fn encode_decode_round_trip_with_empty_favorites() {
    let album = Album {
        id: Some("srv-album-1".to_string()),
        album_name: "Trip".to_string(),
        assets: vec![asset("a.jpg", "id7"), asset("b.jpg", "id8")],
    };
    let albums = vec![album];
    let favorites = FavouriteCollection { favorites: Vec::new() };
    let records = encode(&albums, &favorites).unwrap();
    assert_eq!(records.len(), 2);
    let (decoded_albums, decoded_favorites) = decode(&records);
    let expected = Album {
        id: None,
        album_name: "Trip".to_string(),
        assets: vec![persisted_asset("a.jpg"), persisted_asset("b.jpg")],
    };
    assert_eq!(decoded_albums, vec![expected]);
    assert_eq!(decoded_favorites.favorites, Vec::<Asset>::new());
}

#[test]
fn encode_rejects_asset_without_file_name() {
    let album = Album {
        id: None,
        album_name: "Trip".to_string(),
        assets: vec![Asset { original_file_name: None, id: Some("id7".to_string()) }],
    };
    let favorites = FavouriteCollection { favorites: Vec::new() };
    assert_eq!(encode(&vec![album], &favorites), Err(EncodeError::MissingFileName));
}

#[test]
fn encode_rejects_favorite_without_file_name() {
    let favorites = FavouriteCollection {
        favorites: vec![Asset { original_file_name: None, id: Some("id7".to_string()) }],
    };
    assert_eq!(encode(&Vec::<Album>::new(), &favorites), Err(EncodeError::MissingFileName));
}

#[test]
fn decode_without_favorites_record_yields_empty_collection() {
    let records = vec![SaveRecord::Album(AlbumSaveFile {
        album_name: "Trip".to_string(),
        assets: vec!["a.jpg".to_string()],
    })];
    let (albums, favorites) = decode(&records);
    assert_eq!(albums.len(), 1);
    assert!(favorites.favorites.is_empty());
}

#[test]
fn decode_with_several_favorites_records_keeps_the_last() {
    let records = vec![
        SaveRecord::Favourites(FavouriteCollectionSaveFile {
            favorites: vec!["a.jpg".to_string()],
        }),
        SaveRecord::Favourites(FavouriteCollectionSaveFile {
            favorites: vec!["b.jpg".to_string()],
        }),
    ];
    let (albums, favorites) = decode(&records);
    assert!(albums.is_empty());
    assert_eq!(favorites.favorites, vec![persisted_asset("b.jpg")]);
}

#[test]
fn collision_queues_every_matching_id() {
    let catalog = vec![asset("beach.jpg", "A1"), asset("beach.jpg", "A2")];
    let target = FavouriteCollection { favorites: vec![persisted_asset("beach.jpg")] };
    let ids = reconcile_favorites(&target, &catalog);
    assert_eq!(ids, vec!["A1".to_string(), "A2".to_string()]);
}

#[test]
fn unmatched_favorite_contributes_nothing() {
    let catalog = vec![asset("a.jpg", "id7")];
    let target = FavouriteCollection {
        favorites: vec![persisted_asset("ghost.jpg"), persisted_asset("a.jpg")],
    };
    let ids = reconcile_favorites(&target, &catalog);
    assert_eq!(ids, vec!["id7".to_string()]);
}

#[test]
fn empty_target_queues_nothing() {
    let catalog = vec![asset("a.jpg", "id7")];
    let target = FavouriteCollection { favorites: Vec::new() };
    let ids = reconcile_favorites(&target, &catalog);
    assert!(ids.is_empty());
}

#[test]
fn reconciliation_is_idempotent() {
    let catalog = vec![asset("a.jpg", "id7"), asset("b.jpg", "id8")];
    let target = FavouriteCollection {
        favorites: vec![persisted_asset("b.jpg"), persisted_asset("a.jpg")],
    };
    let first = reconcile_favorites(&target, &catalog);
    // The bulk favorite mutation changes no asset's name or ID, so a second
    // run sees the same catalog and must queue the same IDs.
    let second = reconcile_favorites(&target, &catalog);
    assert_eq!(first, second);
    assert_eq!(first, vec!["id8".to_string(), "id7".to_string()]);
}

#[test]
fn duplicate_targets_queue_duplicate_ids() {
    let catalog = vec![asset("a.jpg", "id7")];
    let target = FavouriteCollection {
        favorites: vec![persisted_asset("a.jpg"), persisted_asset("a.jpg")],
    };
    let ids = reconcile_favorites(&target, &catalog);
    assert_eq!(ids, vec!["id7".to_string(), "id7".to_string()]);
}

#[test]
fn end_to_end_load_scenario() {
    let records = vec![
        SaveRecord::Album(AlbumSaveFile {
            album_name: "Trip".to_string(),
            assets: vec!["a.jpg".to_string(), "b.jpg".to_string()],
        }),
        SaveRecord::Favourites(FavouriteCollectionSaveFile {
            favorites: vec!["a.jpg".to_string()],
        }),
    ];
    let (albums, favorites) = decode(&records);
    let catalog = vec![asset("a.jpg", "id7"), asset("b.jpg", "id8"), asset("c.jpg", "id9")];

    let fav_ids = reconcile_favorites(&favorites, &catalog);
    assert_eq!(fav_ids, vec!["id7".to_string()]);

    let live_albums: Vec<Album> = Vec::new();
    let mutations = reconcile_albums(&albums, &live_albums, &catalog);
    assert_eq!(
        mutations,
        vec![AlbumMutation::Create {
            album_name: "Trip".to_string(),
            asset_ids: vec!["id7".to_string(), "id8".to_string()],
        }]
    );
}

#[test]
fn existing_album_gets_only_missing_assets() {
    let persisted = vec![Album {
        id: None,
        album_name: "Trip".to_string(),
        assets: vec![persisted_asset("a.jpg"), persisted_asset("b.jpg")],
    }];
    let live = vec![Album {
        id: Some("album-9".to_string()),
        album_name: "Trip".to_string(),
        assets: vec![asset("a.jpg", "id7")],
    }];
    let catalog = vec![asset("a.jpg", "id7"), asset("b.jpg", "id8")];
    let mutations = reconcile_albums(&persisted, &live, &catalog);
    assert_eq!(
        mutations,
        vec![AlbumMutation::AddAssets {
            album_id: "album-9".to_string(),
            asset_ids: vec!["id8".to_string()],
        }]
    );
}

#[test]
fn album_already_in_agreement_queues_nothing() {
    let persisted = vec![Album {
        id: None,
        album_name: "Trip".to_string(),
        assets: vec![persisted_asset("a.jpg")],
    }];
    let live = vec![Album {
        id: Some("album-9".to_string()),
        album_name: "Trip".to_string(),
        assets: vec![asset("a.jpg", "id7")],
    }];
    let catalog = vec![asset("a.jpg", "id7")];
    let mutations = reconcile_albums(&persisted, &live, &catalog);
    assert!(mutations.is_empty());
}

#[test]
fn well_formedness_checks_match_their_inputs() {
    assert!(catalog_is_well_formed(&vec![asset("a.jpg", "id7")]));
    assert!(catalog_is_well_formed(&vec![Asset { original_file_name: None, id: None }]));
    assert!(!catalog_is_well_formed(&vec![persisted_asset("a.jpg")]));

    let named = Album {
        id: Some("album-9".to_string()),
        album_name: "Trip".to_string(),
        assets: vec![persisted_asset("a.jpg")],
    };
    let unnamed = Album {
        id: None,
        album_name: "Trip".to_string(),
        assets: vec![Asset { original_file_name: None, id: None }],
    };
    assert!(albums_are_encodable(&vec![named.clone()]));
    assert!(!albums_are_encodable(&vec![named.clone(), unnamed.clone()]));
    assert!(albums_have_ids(&vec![named]));
    assert!(!albums_have_ids(&vec![unnamed]));
}

#[test]
fn decode_keeps_album_document_order() {
    let records = vec![
        SaveRecord::Album(AlbumSaveFile {
            album_name: "Autumn".to_string(),
            assets: vec!["a.jpg".to_string()],
        }),
        SaveRecord::Favourites(FavouriteCollectionSaveFile { favorites: Vec::new() }),
        SaveRecord::Album(AlbumSaveFile {
            album_name: "Winter".to_string(),
            assets: Vec::new(),
        }),
    ];
    let (albums, _) = decode(&records);
    assert_eq!(albums.len(), 2);
    assert_eq!(albums[0].album_name, "Autumn");
    assert_eq!(albums[1].album_name, "Winter");
}

#[test]
fn duplicate_live_album_names_match_the_first() {
    let persisted = vec![Album {
        id: None,
        album_name: "Trip".to_string(),
        assets: vec![persisted_asset("a.jpg")],
    }];
    let live = vec![
        Album {
            id: Some("album-1".to_string()),
            album_name: "Trip".to_string(),
            assets: Vec::new(),
        },
        Album {
            id: Some("album-2".to_string()),
            album_name: "Trip".to_string(),
            assets: Vec::new(),
        },
    ];
    let catalog = vec![asset("a.jpg", "id7")];
    let mutations = reconcile_albums(&persisted, &live, &catalog);
    assert_eq!(
        mutations,
        vec![AlbumMutation::AddAssets {
            album_id: "album-1".to_string(),
            asset_ids: vec!["id7".to_string()],
        }]
    );
}

#[test]
fn favourite_collection_save_file_round_trip() {
    let favs = FavouriteCollection {
        favorites: vec![asset("a.jpg", "id7"), asset("b.jpg", "id8")],
    };
    let save = FavouriteCollectionSaveFile::from_fav_collection(favs);
    assert_eq!(save.favorites, vec!["a.jpg".to_string(), "b.jpg".to_string()]);
    let back = save.to_fav_collection();
    assert_eq!(back.favorites, vec![persisted_asset("a.jpg"), persisted_asset("b.jpg")]);
}

#[test]
fn new_save_file_collection_is_empty() {
    let save = FavouriteCollectionSaveFile::new();
    assert!(save.favorites.is_empty());
    assert!(save.to_fav_collection().favorites.is_empty());
}
