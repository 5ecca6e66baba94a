[package]
name = "unnamed"
version = "0.1.0"
edition = "2021"
publish = false

[dependencies]
ariadne = "=0.6.0"
boxcar = "=0.2.14"
cranelift-entity = "=0.128.4"
papaya = "=0.2.5"
proc-macro2 = "=1.0.107"
quote = "=1.0.47"
syn = "=2.0.119"
unicode-xid = "=0.2.6"
