[package]
name = "ppc64"
version = "0.1.0"
edition = "2021"
publish = false

[dependencies]
regalloc2 = "*"
smallvec = "1"
gimli = "*"
target-lexicon = "*"
capstone = "*"
