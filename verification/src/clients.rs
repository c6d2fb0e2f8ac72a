pub mod mangadex;
