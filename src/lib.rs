//! Trust-support layer of a PIV smart-card library: ownership and erasure of
//! triple-DES key material, classification of weak DES keys, and resolution
//! of boolean settings from layered configuration sources.

pub mod des_key;
pub mod setting;
pub mod weak_key;

pub use des_key::{des_decrypt, des_encrypt, DesKey, DES_LEN_3DES, DES_LEN_DES};
pub use setting::{
    _get_bool_config, _get_bool_env, parse_setting_line, setting_get_bool, user_variable_name,
    SettingBool, SettingSource,
};
pub use weak_key::{parity_normalize, yk_des_is_weak_key};
