pub mod event_names;
