[package]
name = "syntaxdot_views"
version = "0.1.0"
edition = "2021"
publish = false

[dependencies]
conllu = "*"
pyo3 = "*"
serde_yaml = "*"
syntaxdot-encoders = "*"
syntaxdot-tch-ext = "*"
syntaxdot-tokenizers = "*"
syntaxdot-transformers = "*"
thiserror = "*"
udgraph = "*"
