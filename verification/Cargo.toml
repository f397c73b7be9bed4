[package]
name = "git_cascade"
version = "0.1.0"
edition = "2021"
publish = false

[dependencies]
git-url = "=0.13.3"
git-refspec = "=0.7.3"
git-ref = "=0.24.1"
git-hash = "=0.10.3"
git-lock = "=3.0.3"
git-actor = "=0.17.2"
bstr = "=1.2.0"
anyhow = "=1.0.104"
thiserror = "=1.0.69"
