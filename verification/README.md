# riggen_app

The verified logic of riggen's application shell, the robot assembler
whose window and command line turn meshes into MJCF and URDF models.

- `src/` is the library, written in Verus; every function carries its
  contract, and the `lemma_*` proof functions state the properties that
  span functions (what a save and a load give back, where a new link goes,
  how the shortcut questions move forward, what the command line accepts).
- `tests/` runs the library on concrete values.
- `app/` is the `riggen` executable around it: argument handling and
  printing.

Modules: `cli` (the command line), `mode`, `tool`, `shortcuts`, `overlays`,
`selection` and `document` (the window's state and the edits' bookkeeping),
`file_io` and `file_menu` (files in and the unsaved-changes guard),
`download` (an export directory as one stored zip), `jobs` (what is in
flight on the job thread), `names`, `vcs_info`,
`example`, `snap`, `gizmo`, `arrows`, `properties`, `debug`, and `text`
(the string helpers the others share).
