pub mod text;
pub mod cexpr;
pub mod macro_table;
pub mod pptext;
pub mod winpath;
pub mod paths;
pub mod flags;
pub mod ninja;
pub mod values;
pub mod tool_cl;
pub mod vcproj;
pub mod tool_lib;
pub mod tool_linker;
pub mod env;
pub mod scan;
pub mod sln_text;
pub mod sln;
pub mod xml;
pub mod vcproj_xml;
pub mod generate;
pub mod cache;
pub mod compdb;
pub mod cli;
pub mod flag_listing;
