# mpm

A material point method (MPM) solver for geomechanics, whose bookkeeping is
verified with Verus.

- `src/` is the verified library: element index tables and quadrature
  sizes, the node, cell and particle records and the mesh that connects
  them (creation, lookup, cell neighbours, active nodes, particle location,
  material maps), the integer mesh file formats, the order of the phases of
  an explicit time step (USF and USL), the names of each constitutive
  model's state variables, and the configuration choices (analysis type,
  loading function, damping, scheme). Physical state travels through the
  mesh as opaque payloads.
- `app/` is the program around it: command line, JSON configuration, file
  I/O, and everything computed in floating point (shape functions,
  constitutive models, the mapping of masses, momenta, forces and stresses
  in each step).
- `tests/` exercises the library on concrete values.
