//! Building blocks of a framework for public queries over private inputs held by
//! several data owners: three-party replicated secret sharing and the storage a
//! computing party keeps of the shares it receives.
#![allow(non_camel_case_types, non_snake_case, non_upper_case_globals)]

pub mod constants;
pub mod rss3;
pub mod share_storage;
pub mod net;
