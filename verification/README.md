# cargo_mre

A verified library behind `cargo mre`, the tool that creates MRE (MediaTek
Runtime Environment) application projects and builds them into `.vxp`
images, together with the decision logic of the on-device diagnostics
application from the project template.

- `src/` is the library, written in Verus: every function has a contract
  and is proved against it, and the laws of the library are proof
  functions.
- `tests/` runs the library on concrete inputs.
- `app/` is the command-line tool: argument handling, file system and
  process work, around the library.

The central function is `vxp::patch_vxp`, which walks the tag table at the
end of a built image, masks one tag and writes the IMSI into another; its
contract is the exact result, `vxp::patched_vxp`, and `vxp::try_patch_vxp`
says for which images the walk fails and why.
