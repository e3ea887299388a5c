//! A single shared record that concurrent clients read and change, and a
//! notification bus that fans every change out to any number of subscribers.
mod config;
mod decimal;
mod record;

pub use config::{Config, ConfigError, DEFAULT_PORT};
pub use decimal::{parse_decimal, push_decimal_u8};
pub use record::{Record, SharedRecord};
mod event;
pub use event::{ChangeEvent, DeliveryFault, name_changed_frame, age_changed_frame, error_frame, record_json_with};
mod bus;
pub use bus::{NotificationBus, BusError, QUEUE_CAPACITY};
mod stream;
pub use stream::{Frame, KEEP_ALIVE_MS, next_frame, idle_step};
mod service;
pub use service::{ServiceError, get_user, change_age, change_name};
