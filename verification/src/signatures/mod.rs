pub mod cms_verify;
pub mod crypto;
