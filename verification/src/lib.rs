//! Verified core of the Agromate greenhouse backend: the rules that turn
//! store rows into compacted measurements, notifications and HTTP replies.

pub mod attribute;
pub mod clock;
pub mod decimal;
pub mod device_api;
pub mod digits;
pub mod get_sensors_data;
pub mod json;
pub mod mqtt_lambda;
pub mod notification_register_api;
pub mod notification_sender;
pub mod plant_info_api;
pub mod plant_models;
pub mod plants_db_downloader;
pub mod reply;
pub mod rollup;
pub mod rollup_laws;
pub mod table;
pub mod text;
pub mod wishlist_api;
