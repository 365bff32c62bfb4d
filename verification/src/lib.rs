//! Verified logic of a SimCity 4 setup checklist: reading the file version
//! out of a Windows executable, judging pasted Windows system reports, the
//! check of the game's document folder, and the order in which the steps of
//! the checklist unlock.

pub mod decimal;
pub mod labels;
pub mod pe_version;
pub mod plugins_check;
pub mod progress;
pub mod ram_check;
pub mod report;
pub mod text;
pub mod windows_check;
