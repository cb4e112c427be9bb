//! The verified core of a mass disk archiver: it reads what the helper programs print, and decides
//! how disks are copied, images saved and trays moved. What it decides is carried out elsewhere.
#![allow(unused_imports)]

pub mod blkid;
pub mod copy;
pub mod isoinfo;
pub mod lsscsi;
pub mod menu;
pub mod naming;
pub mod number;
pub mod status;
pub mod text;
pub mod tray;
pub mod worker;
