//! The objects of a DIDL-Lite answer.

use vstd::prelude::*;

use crate::text::opt_text;

verus! {

/// A container: something that has children.
#[derive(Debug)]
pub struct Container {
    pub id: String,
    pub parent_id: String,
    pub title: String,
    pub upnp_class: &'static str,
    pub child_count: Option<i64>,
    pub artist: Option<String>,
    pub album_art_uri: Option<String>,
}

/// A container as text.
pub struct ContainerView {
    pub id: Seq<char>,
    pub parent_id: Seq<char>,
    pub title: Seq<char>,
    pub upnp_class: Seq<char>,
    pub child_count: Option<i64>,
    pub artist: Option<Seq<char>>,
    pub album_art_uri: Option<Seq<char>>,
}

impl View for Container {
    type V = ContainerView;

    open spec fn view(&self) -> ContainerView {
        ContainerView {
            id: self.id@,
            parent_id: self.parent_id@,
            title: self.title@,
            upnp_class: self.upnp_class@,
            child_count: self.child_count,
            artist: opt_text(self.artist),
            album_art_uri: opt_text(self.album_art_uri),
        }
    }
}

/// Someone who took part in a track, other than its artist.
#[derive(Debug)]
pub struct Author {
    pub role: &'static str,
    pub name: String,
}

/// An author as text.
pub struct AuthorView {
    pub role: Seq<char>,
    pub name: Seq<char>,
}

impl View for Author {
    type V = AuthorView;

    open spec fn view(&self) -> AuthorView {
        AuthorView { role: self.role@, name: self.name@ }
    }
}

pub open spec fn authors_view(authors: Seq<Author>) -> Seq<AuthorView> {
    authors.map_values(|a: Author| a@)
}

/// Where and in which form a track can be had.
#[derive(Debug)]
pub struct Resource {
    pub url: String,
    pub protocol_info: String,
    pub size: u64,
    pub duration_ms: Option<u64>,
    pub bitrate: Option<u32>,
    pub sample_frequency: Option<u32>,
    pub bits_per_sample: Option<u8>,
    pub nr_audio_channels: Option<u8>,
}

/// A resource as text.
pub struct ResourceView {
    pub url: Seq<char>,
    pub protocol_info: Seq<char>,
    pub size: u64,
    pub duration_ms: Option<u64>,
    pub bitrate: Option<u32>,
    pub sample_frequency: Option<u32>,
    pub bits_per_sample: Option<u8>,
    pub nr_audio_channels: Option<u8>,
}

impl View for Resource {
    type V = ResourceView;

    open spec fn view(&self) -> ResourceView {
        ResourceView {
            url: self.url@,
            protocol_info: self.protocol_info@,
            size: self.size,
            duration_ms: self.duration_ms,
            bitrate: self.bitrate,
            sample_frequency: self.sample_frequency,
            bits_per_sample: self.bits_per_sample,
            nr_audio_channels: self.nr_audio_channels,
        }
    }
}

/// An item: something that can be played.
#[derive(Debug)]
pub struct Item {
    pub id: String,
    pub parent_id: String,
    pub title: String,
    pub upnp_class: &'static str,
    pub artist: Option<String>,
    pub album: Option<String>,
    pub genre: Option<String>,
    pub original_track_number: Option<u32>,
    pub original_disc_number: Option<u32>,
    pub authors: Vec<Author>,
    pub album_art_uri: Option<String>,
    pub res: Resource,
}

/// An item as text.
pub struct ItemView {
    pub id: Seq<char>,
    pub parent_id: Seq<char>,
    pub title: Seq<char>,
    pub upnp_class: Seq<char>,
    pub artist: Option<Seq<char>>,
    pub album: Option<Seq<char>>,
    pub genre: Option<Seq<char>>,
    pub original_track_number: Option<u32>,
    pub original_disc_number: Option<u32>,
    pub authors: Seq<AuthorView>,
    pub album_art_uri: Option<Seq<char>>,
    pub res: ResourceView,
}

impl View for Item {
    type V = ItemView;

    open spec fn view(&self) -> ItemView {
        ItemView {
            id: self.id@,
            parent_id: self.parent_id@,
            title: self.title@,
            upnp_class: self.upnp_class@,
            artist: opt_text(self.artist),
            album: opt_text(self.album),
            genre: opt_text(self.genre),
            original_track_number: self.original_track_number,
            original_disc_number: self.original_disc_number,
            authors: authors_view(self.authors@),
            album_art_uri: opt_text(self.album_art_uri),
            res: self.res@,
        }
    }
}

pub open spec fn containers_view(containers: Seq<Container>) -> Seq<ContainerView> {
    containers.map_values(|c: Container| c@)
}

pub open spec fn items_view(items: Seq<Item>) -> Seq<ItemView> {
    items.map_values(|i: Item| i@)
}

} // verus!
