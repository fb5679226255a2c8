[package]
name = "fathom"
version = "0.1.0"
edition = "2021"
publish = false

[dependencies]
scoped-arena = "0.4"
typed-arena = "2.0"
string-interner = "0.12"
fxhash = "0.2"
logos = "0.12"
lalrpop-util = "0.19"
codespan-reporting = "0.11"
